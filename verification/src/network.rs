use vstd::prelude::*;
use crate::error::NetworkError;
use crate::neuron::{Neuron, NeuronModel};
use crate::scalar::{all_initial, is_initial};

verus! {

/// An ordered, fixed-size collection of neurons that share their inputs.
pub type Layer = Vec<Neuron>;

/// A feed-forward network: hidden layers in the order in which a signal
/// passes them, then one output layer whose neurons stand for the classes in
/// `names`, position by position.
#[derive(Debug, Clone, PartialEq, Eq)]
pub struct Network {
    pub inputs: usize,
    pub hidden_layers: Vec<Layer>,
    pub output_layer: Layer,
    pub names: Vec<String>,
}

/// What a network is: its input width, its layers from the first hidden
/// layer to the output layer, which comes last, and the class names.
pub struct NetworkModel {
    pub inputs: nat,
    pub layers: Seq<Seq<NeuronModel>>,
    pub names: Seq<Seq<char>>,
}

/// The neurons of a layer as models.
pub open spec fn layer_model(layer: Seq<Neuron>) -> Seq<NeuronModel> {
    layer.map_values(|neuron: Neuron| neuron@)
}

/// The layers of a network as models.
pub open spec fn layers_model(layers: Seq<Layer>) -> Seq<Seq<NeuronModel>> {
    layers.map_values(|layer: Layer| layer_model(layer@))
}

/// No name occurs twice.
pub open spec fn distinct(names: Seq<Seq<char>>) -> bool {
    forall|i: int, j: int| 0 <= i < j < names.len() ==> names[i] != names[j]
}

/// The names as sequences of characters.
pub open spec fn names_model(names: Seq<String>) -> Seq<Seq<char>> {
    names.map_values(|name: String| name@)
}

impl NetworkModel {
    /// The index of the output layer: the number of hidden layers.
    pub open spec fn top(self) -> int {
        self.layers.len() - 1
    }

    /// The number of values that feed each neuron of layer `l`.
    pub open spec fn fan_in(self, l: int) -> nat {
        if l <= 0 {
            self.inputs
        } else {
            self.layers[l - 1].len()
        }
    }

    /// The shape rules: there is an output layer, no layer is empty, every
    /// neuron has one weight for each value that feeds its layer, and the
    /// output neurons have pairwise distinct names.
    pub open spec fn wf(self) -> bool {
        &&& self.layers.len() >= 1
        &&& forall|l: int| 0 <= l < self.layers.len() ==> (#[trigger] self.layers[l]).len() >= 1
        &&& forall|l: int, n: int|
            0 <= l < self.layers.len() && 0 <= n < self.layers[l].len() ==> (
            #[trigger] self.layers[l][n]).weights.len() == self.fan_in(l)
        &&& self.names.len() == self.layers[self.top()].len()
        &&& distinct(self.names)
    }

    /// Every parameter lies in the range that the parameters of a new
    /// network are drawn from.
    pub open spec fn initial(self) -> bool {
        forall|l: int, n: int|
            0 <= l < self.layers.len() && 0 <= n < self.layers[l].len() ==> (
            #[trigger] self.layers[l][n]).initial()
    }

    /// The weights through which position `i` of layer `l - 1` feeds the
    /// neurons of layer `l`, one for each neuron of layer `l`.
    pub open spec fn column(self, l: int, i: int) -> Seq<u64> {
        Seq::new(self.layers[l].len(), |j: int| self.layers[l][j].weights[i])
    }
}

impl View for Network {
    type V = NetworkModel;

    open spec fn view(&self) -> NetworkModel {
        NetworkModel {
            inputs: self.inputs as nat,
            layers: layers_model(self.hidden_layers@).push(layer_model(self.output_layer@)),
            names: names_model(self.names@),
        }
    }
}

/// The number of neurons in layer `l` of a network with `hidden` hidden
/// layers of `width` neurons each and `classes` output neurons.
pub open spec fn shape_width(hidden: nat, width: nat, classes: nat, l: int) -> nat {
    if l < hidden {
        width
    } else {
        classes
    }
}

/// The number of values that feed each neuron of layer `l` in such a network.
pub open spec fn shape_fan_in(inputs: nat, width: nat, l: int) -> nat {
    if l <= 0 {
        inputs
    } else {
        width
    }
}

/// The number of parameters of the layers below layer `l`, for `l` up to
/// the index of the output layer: none below the first layer, else those of
/// the first hidden layer and those of the hidden layers after it. Each
/// neuron has a bias and one weight for each value that feeds it.
pub open spec fn layer_offset(inputs: nat, width: nat, l: int) -> int {
    if l <= 0 {
        0
    } else {
        width * (inputs + 1) + (l - 1) * (width * (width + 1))
    }
}

/// The position, among the parameters, of the bias of neuron `n` of layer
/// `l`; its weights follow it.
pub open spec fn neuron_offset(inputs: nat, width: nat, l: int, n: int) -> int {
    layer_offset(inputs, width, l) + n * (shape_fan_in(inputs, width, l) + 1)
}

/// The number of parameters of the whole network: the position after the
/// last output neuron.
pub open spec fn parameter_count(inputs: nat, hidden: nat, width: nat, classes: nat) -> int {
    neuron_offset(inputs, width, hidden as int, classes as int)
}

/// The parameters of a hidden layer end where those of the next layer begin.
pub proof fn lemma_layer_offset_step(inputs: nat, width: nat, l: int)
    requires
        0 <= l,
    ensures
        layer_offset(inputs, width, l + 1) == neuron_offset(inputs, width, l, width as int),
{
    let each = width * (width + 1);
    if l == 0 {
        assert(0 * each == 0);
    } else {
        assert(l * each == (l - 1) * each + each) by (nonlinear_arith);
    }
}

/// The parameters below a layer grow with the layer's index.
pub proof fn lemma_layer_offset_monotone(inputs: nat, width: nat, a: int, b: int)
    requires
        0 <= a <= b,
    ensures
        0 <= layer_offset(inputs, width, a) <= layer_offset(inputs, width, b),
{
    let first = width * (inputs + 1);
    let each = width * (width + 1);
    assert(first >= 0 && each >= 0) by (nonlinear_arith)
        requires
            first == width * (inputs + 1),
            each == width * (width + 1),
    ;
    if b > 0 {
        assert((b - 1) * each >= 0) by (nonlinear_arith)
            requires
                b >= 1,
                each >= 0,
        ;
        if a > 0 {
            assert((a - 1) * each >= 0 && (a - 1) * each <= (b - 1) * each) by (nonlinear_arith)
                requires
                    1 <= a <= b,
                    each >= 0,
            ;
        }
    }
}

/// The number of parameters of a network of the given shape, if it can be
/// counted in a `usize`.
pub fn count_parameters(inputs: usize, hidden: usize, width: usize, classes: usize) -> (count:
    Option<usize>)
    ensures
        match count {
            Some(n) => n == parameter_count(
                inputs as nat,
                hidden as nat,
                width as nat,
                classes as nat,
            ),
            None => parameter_count(inputs as nat, hidden as nat, width as nat, classes as nat)
                > usize::MAX,
        },
{
    let ghost total = parameter_count(inputs as nat, hidden as nat, width as nat, classes as nat);
    let feed: u128 = inputs as u128 + 1;
    let wide: u128 = width as u128 + 1;
    let limit: u128 = usize::MAX as u128;
    if hidden == 0 {
        proof {
            assert(classes * feed <= 0xffff_ffff_ffff_ffff * 0x1_0000_0000_0000_0000)
                by (nonlinear_arith)
                requires
                    0 <= classes <= 0xffff_ffff_ffff_ffff,
                    0 <= feed <= 0x1_0000_0000_0000_0000,
            ;
        }
        let all: u128 = classes as u128 * feed;
        if all > limit {
            None
        } else {
            Some(all as usize)
        }
    } else {
        proof {
            assert(width * feed <= 0xffff_ffff_ffff_ffff * 0x1_0000_0000_0000_0000)
                by (nonlinear_arith)
                requires
                    0 <= width <= 0xffff_ffff_ffff_ffff,
                    0 <= feed <= 0x1_0000_0000_0000_0000,
            ;
            assert(width * wide <= 0xffff_ffff_ffff_ffff * 0x1_0000_0000_0000_0000)
                by (nonlinear_arith)
                requires
                    0 <= width <= 0xffff_ffff_ffff_ffff,
                    0 <= wide <= 0x1_0000_0000_0000_0000,
            ;
            assert(classes * wide <= 0xffff_ffff_ffff_ffff * 0x1_0000_0000_0000_0000)
                by (nonlinear_arith)
                requires
                    0 <= classes <= 0xffff_ffff_ffff_ffff,
                    0 <= wide <= 0x1_0000_0000_0000_0000,
            ;
            assert((hidden - 1) * (width * wide) >= 0) by (nonlinear_arith)
                requires
                    hidden >= 1,
                    width >= 0,
                    wide >= 0,
            ;
        }
        let first: u128 = width as u128 * feed;
        let each: u128 = width as u128 * wide;
        let last: u128 = classes as u128 * wide;
        if first > limit || last > limit {
            return None;
        }
        match (hidden as u128 - 1).checked_mul(each) {
            None => None,
            Some(between) => {
                if between > limit {
                    return None;
                }
                let all: u128 = first + between + last;
                if all > limit {
                    None
                } else {
                    Some(all as usize)
                }
            },
        }
    }
}

/// Builds `count` neurons, each fed by `fan_in` values, from the parameters
/// at `start` and after: the result holds the layer and the position after
/// its last parameter.
fn build_layer(fan_in: usize, count: usize, parameters: &Vec<u64>, start: usize) -> (made: Option<
    (Layer, usize),
>)
    requires
        start <= parameters.len(),
        all_initial(parameters@),
    ensures
        made is Some <==> start + count * (fan_in + 1) <= parameters.len(),
        made matches Some((layer, next)) ==> {
            &&& next == start + count * (fan_in + 1)
            &&& layer@.len() == count
            &&& forall|n: int|
                0 <= n < count ==> {
                    &&& (#[trigger] layer@[n])@.initial()
                    &&& layer@[n].bias == parameters@[start + n * (fan_in + 1)]
                    &&& layer@[n].weights@.len() == fan_in
                    &&& layer@[n].weights@ == parameters@.subrange(
                        start + n * (fan_in + 1) + 1,
                        start + n * (fan_in + 1) + 1 + fan_in,
                    )
                }
        },
{
    let mut layer: Layer = Vec::new();
    let mut pos: usize = start;
    let mut n: usize = 0;
    while n < count
        invariant
            n <= count,
            start <= pos <= parameters.len(),
            pos == start + n * (fan_in + 1),
            layer@.len() == n,
            all_initial(parameters@),
            forall|m: int|
                0 <= m < n ==> {
                    &&& (#[trigger] layer@[m])@.initial()
                    &&& layer@[m].bias == parameters@[start + m * (fan_in + 1)]
                    &&& layer@[m].weights@.len() == fan_in
                    &&& layer@[m].weights@ == parameters@.subrange(
                        start + m * (fan_in + 1) + 1,
                        start + m * (fan_in + 1) + 1 + fan_in,
                    )
                },
        decreases count - n,
    {
        proof {
            assert((n + 1) * (fan_in + 1) == n * (fan_in + 1) + (fan_in + 1))
                by (nonlinear_arith);
            assert((n + 1) * (fan_in + 1) <= count * (fan_in + 1)) by (nonlinear_arith)
                requires
                    n + 1 <= count,
            ;
        }
        match Neuron::new(fan_in, parameters, pos) {
            Ok(neuron) => {
                proof {
                    assert forall|k: int| 0 <= k < neuron.weights@.len() implies is_initial(
                        #[trigger] neuron.weights@[k],
                    ) by {
                        assert(neuron.weights@[k] == parameters@[pos + 1 + k]);
                    }
                }
                layer.push(neuron);
                pos = pos + fan_in + 1;
                n += 1;
            },
            Err(_) => {
                return None;
            },
        }
    }
    Some((layer, pos))
}

/// Whether each of the neurons has `fan` weights.
pub fn neurons_fit(neurons: &Vec<Neuron>, fan: usize) -> (ok: bool)
    ensures
        ok == (forall|n: int|
            0 <= n < neurons@.len() ==> (#[trigger] neurons@[n]).weights@.len() == fan),
{
    let mut n: usize = 0;
    while n < neurons.len()
        invariant
            n <= neurons@.len(),
            forall|m: int| 0 <= m < n ==> (#[trigger] neurons@[m]).weights@.len() == fan,
        decreases neurons@.len() - n,
    {
        if neurons[n].weights.len() != fan {
            return false;
        }
        n += 1;
    }
    true
}

/// Whether the layer has a neuron and each of its neurons has `fan` weights.
pub fn layer_fits(layer: &Layer, fan: usize) -> (ok: bool)
    ensures
        ok == (layer@.len() >= 1 && forall|n: int|
            0 <= n < layer@.len() ==> (#[trigger] layer@[n]).weights@.len() == fan),
{
    layer.len() > 0 && neurons_fit(layer, fan)
}

/// Whether some name occurs twice.
pub fn has_duplicate(names: &Vec<String>) -> (found: bool)
    ensures
        found == !distinct(names_model(names@)),
{
    let mut j: usize = 0;
    while j < names.len()
        invariant
            j <= names.len(),
            forall|a: int, b: int| 0 <= a < b < j ==> names@[a]@ != names@[b]@,
        decreases names.len() - j,
    {
        let mut i: usize = 0;
        while i < j
            invariant
                i <= j < names.len(),
                forall|a: int| 0 <= a < i ==> names@[a]@ != names@[j as int]@,
            decreases j - i,
        {
            if names[i] == names[j] {
                proof {
                    assert(names_model(names@)[i as int] == names_model(names@)[j as int]);
                }
                return true;
            }
            i += 1;
        }
        j += 1;
    }
    proof {
        assert forall|a: int, b: int| 0 <= a < b < names@.len() implies names_model(names@)[a]
            != names_model(names@)[b] by {
            assert(names@[a]@ != names@[b]@);
        }
    }
    false
}

/// Why no network can have this shape and these names, if anything stands
/// in the way: a repeated name first, then the want of a class or of
/// neurons in a hidden layer.
pub open spec fn shape_refusal(hidden: nat, width: nat, names: Seq<Seq<char>>) -> Option<
    NetworkError,
> {
    if !distinct(names) {
        Some(NetworkError::DuplicateOutputName)
    } else if names.len() == 0 || (hidden > 0 && width == 0) {
        Some(NetworkError::InvalidShape)
    } else {
        None
    }
}

/// Why no network can be made of these arguments, if anything stands in the
/// way: what stands in the way of the shape first, then a number of
/// parameters other than the shape asks for.
pub open spec fn refusal(
    inputs: nat,
    hidden: nat,
    width: nat,
    names: Seq<Seq<char>>,
    parameters: Seq<u64>,
) -> Option<NetworkError> {
    if shape_refusal(hidden, width, names) is Some {
        shape_refusal(hidden, width, names)
    } else if parameters.len() != parameter_count(inputs, hidden, width, names.len()) {
        Some(NetworkError::DimensionMismatch)
    } else {
        None
    }
}

/// The number of parameters that a network of this shape and with these
/// names is made of. Fails as `Network::new` would for the shape and the
/// names, and with `DimensionMismatch` where the number is more than a
/// vector can hold.
pub fn needed_parameters(inputs: usize, hidden: usize, width: usize, names: &Vec<String>) -> (count:
    Result<usize, NetworkError>)
    ensures
        match count {
            Ok(n) => {
                &&& shape_refusal(hidden as nat, width as nat, names_model(names@)) is None
                &&& n == parameter_count(
                    inputs as nat,
                    hidden as nat,
                    width as nat,
                    names@.len(),
                )
            },
            Err(fault) => {
                if shape_refusal(hidden as nat, width as nat, names_model(names@)) is Some {
                    shape_refusal(hidden as nat, width as nat, names_model(names@)) == Some(fault)
                } else {
                    &&& fault == NetworkError::DimensionMismatch
                    &&& parameter_count(inputs as nat, hidden as nat, width as nat, names@.len())
                        > usize::MAX
                }
            },
        },
{
    if has_duplicate(names) {
        return Err(NetworkError::DuplicateOutputName);
    }
    if names.len() == 0 || (hidden > 0 && width == 0) {
        return Err(NetworkError::InvalidShape);
    }
    match count_parameters(inputs, hidden, width, names.len()) {
        Some(n) => Ok(n),
        None => Err(NetworkError::DimensionMismatch),
    }
}

/// The network has the given shape and names, and each neuron has its
/// parameters from `parameters`: layer by layer, neuron by neuron, the bias
/// and then the weights.
pub open spec fn laid_out(
    net: NetworkModel,
    inputs: nat,
    hidden: nat,
    width: nat,
    names: Seq<Seq<char>>,
    parameters: Seq<u64>,
) -> bool {
    &&& net.inputs == inputs
    &&& net.names == names
    &&& net.layers.len() == hidden + 1
    &&& forall|l: int|
        0 <= l <= hidden ==> (#[trigger] net.layers[l]).len() == shape_width(
            hidden,
            width,
            names.len(),
            l,
        )
    &&& forall|l: int, n: int|
        0 <= l <= hidden && 0 <= n < net.layers[l].len() ==> {
            let at = neuron_offset(inputs, width, l, n);
            &&& (#[trigger] net.layers[l][n]).bias == parameters[at]
            &&& net.layers[l][n].weights == parameters.subrange(
                at + 1,
                at + 1 + shape_fan_in(inputs, width, l),
            )
        }
}

impl Network {
    /// The shape rules hold of this network.
    pub open spec fn wf(&self) -> bool {
        self@.wf()
    }

    /// A network of `num_hidden_layers` hidden layers of `hidden_layer_width`
    /// neurons each, over `inputs` inputs, with one output neuron for each
    /// name. The initial weights and biases are `parameters`, each of them
    /// a draw from the reals from minus one half up to, but without, one
    /// half, in the order of the layers and, within a layer, of the neurons:
    /// a neuron's bias, then its weights.
    pub fn new(
        inputs: usize,
        num_hidden_layers: usize,
        hidden_layer_width: usize,
        output_names: Vec<String>,
        parameters: &Vec<u64>,
    ) -> (made: Result<Network, NetworkError>)
        requires
            all_initial(parameters@),
        ensures
            match made {
                Ok(net) => {
                    &&& net@.initial()
                    &&& refusal(
                        inputs as nat,
                        num_hidden_layers as nat,
                        hidden_layer_width as nat,
                        names_model(output_names@),
                        parameters@,
                    ) is None
                    &&& net.wf()
                    &&& laid_out(
                        net@,
                        inputs as nat,
                        num_hidden_layers as nat,
                        hidden_layer_width as nat,
                        names_model(output_names@),
                        parameters@,
                    )
                },
                Err(fault) => refusal(
                    inputs as nat,
                    num_hidden_layers as nat,
                    hidden_layer_width as nat,
                    names_model(output_names@),
                    parameters@,
                ) == Some(fault),
            },
    {
        if has_duplicate(&output_names) {
            return Err(NetworkError::DuplicateOutputName);
        }
        let classes: usize = output_names.len();
        if classes == 0 || (num_hidden_layers > 0 && hidden_layer_width == 0) {
            return Err(NetworkError::InvalidShape);
        }
        let ghost names = names_model(output_names@);
        let ghost total = parameter_count(
            inputs as nat,
            num_hidden_layers as nat,
            hidden_layer_width as nat,
            classes as nat,
        );
        let mut hidden_layers: Vec<Layer> = Vec::new();
        let mut pos: usize = 0;
        let mut l: usize = 0;
        while l < num_hidden_layers
            invariant
                l <= num_hidden_layers,
                0 < classes == names_model(output_names@).len(),
                distinct(names_model(output_names@)),
                num_hidden_layers > 0 ==> hidden_layer_width > 0,
                pos <= parameters.len(),
                pos == layer_offset(inputs as nat, hidden_layer_width as nat, l as int),
                total == parameter_count(
                    inputs as nat,
                    num_hidden_layers as nat,
                    hidden_layer_width as nat,
                    classes as nat,
                ),
                hidden_layers@.len() == l,
                all_initial(parameters@),
                forall|k: int|
                    0 <= k < l ==> (#[trigger] hidden_layers@[k])@.len() == hidden_layer_width,
                forall|k: int, n: int|
                    0 <= k < l && 0 <= n < hidden_layer_width ==> (
                    #[trigger] hidden_layers@[k]@[n])@.initial(),
                forall|k: int, n: int|
                    0 <= k < l && 0 <= n < hidden_layer_width ==> {
                        let at = neuron_offset(inputs as nat, hidden_layer_width as nat, k, n);
                        let fan = shape_fan_in(inputs as nat, hidden_layer_width as nat, k);
                        &&& (#[trigger] hidden_layers@[k]@[n]).bias == parameters@[at]
                        &&& hidden_layers@[k]@[n].weights@.len() == fan
                        &&& hidden_layers@[k]@[n].weights@ == parameters@.subrange(
                            at + 1,
                            at + 1 + fan,
                        )
                    },
            decreases num_hidden_layers - l,
        {
            let fan_in: usize = if l == 0 {
                inputs
            } else {
                hidden_layer_width
            };
            proof {
                lemma_layer_offset_step(inputs as nat, hidden_layer_width as nat, l as int);
                lemma_layer_offset_monotone(
                    inputs as nat,
                    hidden_layer_width as nat,
                    l + 1,
                    num_hidden_layers as int,
                );
                assert(classes * (shape_fan_in(
                    inputs as nat,
                    hidden_layer_width as nat,
                    num_hidden_layers as int,
                ) + 1) >= 0) by (nonlinear_arith);
            }
            match build_layer(fan_in, hidden_layer_width, parameters, pos) {
                Some((layer, next)) => {
                    hidden_layers.push(layer);
                    pos = next;
                    l += 1;
                },
                None => {
                    assert(total >= layer_offset(
                        inputs as nat,
                        hidden_layer_width as nat,
                        l + 1,
                    ) > parameters.len());
                    return Err(NetworkError::DimensionMismatch);
                },
            }
        }
        let fan_in: usize = if num_hidden_layers == 0 {
            inputs
        } else {
            hidden_layer_width
        };
        match build_layer(fan_in, classes, parameters, pos) {
            Some((output_layer, next)) => {
                if next != parameters.len() {
                    return Err(NetworkError::DimensionMismatch);
                }
                let net = Network { inputs, hidden_layers, output_layer, names: output_names };
                proof {
                    let model = net@;
                    assert(model.layers.len() == num_hidden_layers + 1);
                    assert forall|k: int| 0 <= k <= num_hidden_layers implies (
                    #[trigger] model.layers[k]).len() == shape_width(
                        num_hidden_layers as nat,
                        hidden_layer_width as nat,
                        classes as nat,
                        k,
                    ) by {
                        if k < num_hidden_layers {
                            assert(model.layers[k] == layer_model(net.hidden_layers@[k]@));
                        }
                    }
                    assert forall|k: int, n: int|
                        0 <= k <= num_hidden_layers && 0 <= n < model.layers[k].len() implies {
                        let at = neuron_offset(inputs as nat, hidden_layer_width as nat, k, n);
                        &&& (#[trigger] model.layers[k][n]).bias == parameters@[at]
                        &&& model.layers[k][n].weights.len() == shape_fan_in(
                            inputs as nat,
                            hidden_layer_width as nat,
                            k,
                        )
                        &&& model.layers[k][n].weights == parameters@.subrange(
                            at + 1,
                            at + 1 + shape_fan_in(inputs as nat, hidden_layer_width as nat, k),
                        )
                    } by {
                        if k < num_hidden_layers {
                            assert(model.layers[k] == layer_model(net.hidden_layers@[k]@));
                            assert(model.layers[k][n] == net.hidden_layers@[k]@[n]@);
                        } else {
                            assert(model.layers[k][n] == net.output_layer@[n]@);
                        }
                    }
                    assert forall|k: int, n: int|
                        0 <= k < model.layers.len() && 0 <= n < model.layers[k].len() implies (
                    #[trigger] model.layers[k][n]).initial() by {
                        if k < num_hidden_layers {
                            assert(model.layers[k] == layer_model(net.hidden_layers@[k]@));
                            assert(model.layers[k][n] == net.hidden_layers@[k]@[n]@);
                        } else {
                            assert(model.layers[k][n] == net.output_layer@[n]@);
                        }
                    }
                    assert forall|k: int, n: int|
                        0 <= k < model.layers.len() && 0 <= n < model.layers[k].len() implies (
                    #[trigger] model.layers[k][n]).weights.len() == model.fan_in(k) by {
                        if k > 0 {
                            assert(model.layers[k - 1].len() == hidden_layer_width);
                        }
                    }
                }
                Ok(net)
            },
            None => Err(NetworkError::DimensionMismatch),
        }
    }

    /// Whether the shape rules hold of this network, whose fields anyone
    /// may have set.
    pub fn is_valid(&self) -> (ok: bool)
        ensures
            ok == self.wf(),
    {
        let hidden: usize = self.hidden_layers.len();
        let mut l: usize = 0;
        while l < hidden
            invariant
                l <= hidden == self.hidden_layers@.len(),
                forall|k: int| 0 <= k < l ==> (#[trigger] self@.layers[k]).len() >= 1,
                forall|k: int, n: int|
                    0 <= k < l && 0 <= n < self@.layers[k].len() ==> (
                    #[trigger] self@.layers[k][n]).weights.len() == self@.fan_in(k),
            decreases hidden - l,
        {
            let fan: usize = self.fan_in(l);
            let layer = self.layer(l);
            assert(layer_model(layer@).len() == layer@.len());
            if !layer_fits(layer, fan) {
                proof {
                    if self.wf() {
                        assert forall|n: int| 0 <= n < layer@.len() implies (
                        #[trigger] layer@[n]).weights@.len() == fan by {
                            assert(self@.layers[l as int][n] == layer@[n]@);
                        }
                        assert(self@.layers[l as int].len() >= 1);
                    }
                }
                return false;
            }
            proof {
                assert forall|n: int| 0 <= n < self@.layers[l as int].len() implies (
                #[trigger] self@.layers[l as int][n]).weights.len() == self@.fan_in(l as int) by {
                    assert(self@.layers[l as int][n] == layer@[n]@);
                }
            }
            l += 1;
        }
        let fan: usize = self.fan_in(hidden);
        let layer = self.layer(hidden);
        assert(layer_model(layer@).len() == layer@.len());
        if !layer_fits(layer, fan) {
            proof {
                if self.wf() {
                    assert forall|n: int| 0 <= n < layer@.len() implies (
                    #[trigger] layer@[n]).weights@.len() == fan by {
                        assert(self@.layers[hidden as int][n] == layer@[n]@);
                    }
                    assert(self@.layers[hidden as int].len() >= 1);
                }
            }
            return false;
        }
        proof {
            assert forall|n: int| 0 <= n < self@.layers[hidden as int].len() implies (
            #[trigger] self@.layers[hidden as int][n]).weights.len() == self@.fan_in(
                hidden as int,
            ) by {
                assert(self@.layers[hidden as int][n] == layer@[n]@);
            }
        }
        if self.names.len() != self.output_layer.len() {
            return false;
        }
        !has_duplicate(&self.names)
    }

    /// The number of hidden layers, which is the index of the output layer.
    pub fn hidden_count(&self) -> (count: usize)
        ensures
            count == self@.top(),
    {
        self.hidden_layers.len()
    }

    /// Layer `l`: a hidden layer, or the output layer for the index after
    /// the last hidden layer.
    pub fn layer(&self, l: usize) -> (layer: &Layer)
        requires
            l <= self@.top(),
        ensures
            layer_model(layer@) == self@.layers[l as int],
    {
        if l < self.hidden_layers.len() {
            &self.hidden_layers[l]
        } else {
            &self.output_layer
        }
    }

    /// The number of values that feed each neuron of layer `l`.
    pub fn fan_in(&self, l: usize) -> (count: usize)
        requires
            l <= self@.top(),
        ensures
            count == self@.fan_in(l as int),
    {
        if l == 0 {
            self.inputs
        } else {
            let below = self.layer(l - 1);
            assert(layer_model(below@).len() == below@.len());
            below.len()
        }
    }

    /// The weights through which position `i` of the layer below feeds the
    /// neurons of layer `l`, one for each neuron of layer `l`, in order.
    pub fn column(&self, l: usize, i: usize) -> (weights: Vec<u64>)
        requires
            self.wf(),
            l <= self@.top(),
            i < self@.fan_in(l as int),
        ensures
            weights@ == self@.column(l as int, i as int),
    {
        let layer = self.layer(l);
        assert(layer_model(layer@).len() == layer@.len());
        let mut weights: Vec<u64> = Vec::new();
        let mut j: usize = 0;
        while j < layer.len()
            invariant
                j <= layer@.len(),
                self.wf(),
                l <= self@.top(),
                i < self@.fan_in(l as int),
                layer_model(layer@) == self@.layers[l as int],
                weights@.len() == j,
                forall|k: int|
                    0 <= k < j ==> #[trigger] weights@[k] == self@.layers[l as int][k].weights[i as int],
            decreases layer@.len() - j,
        {
            assert(layer_model(layer@)[j as int] == layer@[j as int]@);
            assert(self@.layers[l as int][j as int].weights.len() == self@.fan_in(l as int));
            weights.push(layer[j].weights[i]);
            j += 1;
        }
        assert(weights@ =~= self@.column(l as int, i as int));
        weights
    }
}

} // verus!
