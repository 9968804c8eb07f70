//! What holds of the passes whatever arithmetic computes the scalars: a pass
//! that is fed by one and the same arithmetic is determined by the network
//! it runs against and by the example.
use vstd::prelude::*;
use crate::backward::{BackwardModel, ErrorTaskModel};
use crate::forward::ForwardModel;
use crate::network::NetworkModel;
use crate::neuron::NeuronModel;
use crate::update::{Adjustment, UpdateModel};

verus! {

/// An arithmetic on reals: what it answers to each kind of task.
pub struct Arithmetic {
    /// The activation of a neuron on the values that feed it.
    pub activate: spec_fn(NeuronModel, Seq<u64>) -> u64,
    /// The error signal of a neuron.
    pub error: spec_fn(ErrorTaskModel) -> u64,
    /// The new value of a parameter.
    pub adjust: spec_fn(Adjustment) -> u64,
}

impl ForwardModel {
    /// Every activation recorded so far is what `arithmetic` answers for its
    /// neuron and the values that feed it.
    pub open spec fn follows(self, net: NetworkModel, arithmetic: Arithmetic) -> bool {
        &&& forall|l: int, n: int|
            0 <= l < self.layers.len() && 0 <= n < self.layers[l].len() ==> #[trigger] self.layers[l][n]
                == (arithmetic.activate)(net.layers[l][n], self.feed(l))
        &&& forall|n: int|
            0 <= n < self.row.len() ==> #[trigger] self.row[n] == (arithmetic.activate)(
                net.layers[self.layers.len() as int][n],
                self.feed(self.layers.len() as int),
            )
    }
}

impl BackwardModel {
    /// Every error signal recorded so far is what `arithmetic` answers for
    /// the task of its neuron.
    pub open spec fn follows(self, net: NetworkModel, arithmetic: Arithmetic) -> bool {
        &&& forall|k: int, n: int|
            0 <= k < self.layers.len() && 0 <= n < self.layers[k].len() ==> #[trigger] self.layers[k][n]
                == (arithmetic.error)(self.task_at(net, k, n))
        &&& forall|n: int|
            0 <= n < self.row.len() ==> #[trigger] self.row[n] == (arithmetic.error)(
                self.task_at(net, self.layers.len() as int, n),
            )
    }
}

impl UpdateModel {
    /// The parameters of `neuron` are what `arithmetic` answers for the
    /// tasks of neuron `n` of layer `l`.
    pub open spec fn neuron_follows(
        self,
        net: NetworkModel,
        arithmetic: Arithmetic,
        l: int,
        n: int,
        neuron: NeuronModel,
    ) -> bool {
        &&& neuron.bias == (arithmetic.adjust)(self.bias_task(net, l, n))
        &&& forall|k: int|
            0 <= k < neuron.weights.len() ==> #[trigger] neuron.weights[k] == (arithmetic.adjust)(
                self.weight_task(net, l, n, k),
            )
    }

    /// Every new value recorded so far is what `arithmetic` answers for the
    /// task of its parameter.
    pub open spec fn follows(self, net: NetworkModel, arithmetic: Arithmetic) -> bool {
        let l = self.layers.len() as int;
        let n = self.neurons.len() as int;
        &&& forall|i: int, j: int|
            0 <= i < self.layers.len() && 0 <= j < self.layers[i].len() ==> self.neuron_follows(
                net,
                arithmetic,
                i,
                j,
                #[trigger] self.layers[i][j],
            )
        &&& forall|j: int|
            0 <= j < self.neurons.len() ==> self.neuron_follows(
                net,
                arithmetic,
                l,
                j,
                #[trigger] self.neurons[j],
            )
        &&& self.bias matches Some(bias) ==> self.neuron_follows(
            net,
            arithmetic,
            l,
            n,
            NeuronModel { bias, weights: self.weights },
        )
    }
}

/// A forward pass that was fed by an arithmetic up to now is still fed by
/// it once it has recorded that arithmetic's answer for the neuron in turn.
pub proof fn lemma_forward_keeps_following(
    net: NetworkModel,
    pass: ForwardModel,
    arithmetic: Arithmetic,
    activation: u64,
)
    requires
        pass.wf(net),
        !pass.complete(net),
        pass.follows(net, arithmetic),
        activation == (arithmetic.activate)(
            net.layers[pass.layers.len() as int][pass.row.len() as int],
            pass.feed(pass.layers.len() as int),
        ),
    ensures
        pass.supplied(net, activation).follows(net, arithmetic),
{
    let after = pass.supplied(net, activation);
    let turn = pass.layers.len() as int;
    assert forall|l: int, n: int|
        0 <= l < after.layers.len() && 0 <= n < after.layers[l].len() implies #[trigger] after.layers[l][n]
        == (arithmetic.activate)(net.layers[l][n], after.feed(l)) by {
        assert(after.feed(l) == pass.feed(l));
        if l < turn {
            assert(after.layers[l] == pass.layers[l]);
        } else if n < pass.row.len() {
            assert(after.layers[l][n] == pass.row[n]);
        }
    }
    assert forall|n: int| 0 <= n < after.row.len() implies #[trigger] after.row[n] == (
    arithmetic.activate)(
        net.layers[after.layers.len() as int][n],
        after.feed(after.layers.len() as int),
    ) by {
        if n < pass.row.len() {
            assert(after.row[n] == pass.row[n]);
        }
    }
}

/// Inference is repeatable: two finished forward passes over the same
/// inputs, against the same network and fed by the same arithmetic, hold
/// the same activations in every layer, the output layer among them.
pub proof fn lemma_forward_determined(
    net: NetworkModel,
    a: ForwardModel,
    b: ForwardModel,
    arithmetic: Arithmetic,
)
    requires
        a.wf(net),
        b.wf(net),
        a.complete(net),
        b.complete(net),
        a.inputs == b.inputs,
        a.follows(net, arithmetic),
        b.follows(net, arithmetic),
    ensures
        a.layers == b.layers,
        a.outputs() == b.outputs(),
{
    lemma_forward_agree(net, a, b, arithmetic, net.layers.len() as int);
    assert(a.layers =~= b.layers);
}

/// The first `upto` layers of two such passes agree.
proof fn lemma_forward_agree(
    net: NetworkModel,
    a: ForwardModel,
    b: ForwardModel,
    arithmetic: Arithmetic,
    upto: int,
)
    requires
        a.wf(net),
        b.wf(net),
        a.complete(net),
        b.complete(net),
        a.inputs == b.inputs,
        a.follows(net, arithmetic),
        b.follows(net, arithmetic),
        0 <= upto <= net.layers.len(),
    ensures
        forall|l: int| 0 <= l < upto ==> a.layers[l] == b.layers[l],
    decreases upto,
{
    if upto > 0 {
        lemma_forward_agree(net, a, b, arithmetic, upto - 1);
        let l = upto - 1;
        assert(a.feed(l) == b.feed(l));
        assert forall|n: int| 0 <= n < a.layers[l].len() implies a.layers[l][n] == b.layers[l][n] by {
            assert(a.layers[l][n] == (arithmetic.activate)(net.layers[l][n], a.feed(l)));
            assert(b.layers[l][n] == (arithmetic.activate)(net.layers[l][n], b.feed(l)));
        }
        assert(a.layers[l] =~= b.layers[l]);
    }
}

/// A backward pass that was fed by an arithmetic up to now is still fed by
/// it once it has recorded that arithmetic's answer for the neuron in turn.
pub proof fn lemma_backward_keeps_following(
    net: NetworkModel,
    pass: BackwardModel,
    arithmetic: Arithmetic,
    error: u64,
)
    requires
        pass.wf(net),
        !pass.complete(net),
        pass.follows(net, arithmetic),
        error == (arithmetic.error)(pass.pending(net)),
    ensures
        pass.supplied(net, error).follows(net, arithmetic),
{
    let after = pass.supplied(net, error);
    let turn = pass.layers.len() as int;
    assert forall|k: int, n: int|
        0 <= k < after.layers.len() && 0 <= n < after.layers[k].len() implies #[trigger] after.layers[k][n]
        == (arithmetic.error)(after.task_at(net, k, n)) by {
        assert(after.task_at(net, k, n) == pass.task_at(net, k, n));
        if k < turn {
            assert(after.layers[k] == pass.layers[k]);
        } else if n < pass.row.len() {
            assert(after.layers[k][n] == pass.row[n]);
        }
    }
    assert forall|n: int| 0 <= n < after.row.len() implies #[trigger] after.row[n] == (
    arithmetic.error)(after.task_at(net, after.layers.len() as int, n)) by {
        if n < pass.row.len() {
            assert(after.row[n] == pass.row[n]);
        }
    }
}

/// The error signals are those of the weights that the pass ran against:
/// two finished backward passes for the same class over the same forward
/// pass, against the same network and fed by the same arithmetic, hold the
/// same error signals in every layer. Whoever derives the signals again
/// from the weights that the network had during the pass finds the ones
/// that the pass holds.
pub proof fn lemma_backward_determined(
    net: NetworkModel,
    a: BackwardModel,
    b: BackwardModel,
    arithmetic: Arithmetic,
)
    requires
        a.wf(net),
        b.wf(net),
        a.complete(net),
        b.complete(net),
        a.forward == b.forward,
        a.answer == b.answer,
        a.follows(net, arithmetic),
        b.follows(net, arithmetic),
    ensures
        a.layers == b.layers,
{
    lemma_backward_agree(net, a, b, arithmetic, net.layers.len() as int);
    assert(a.layers =~= b.layers);
}

/// The first `upto` finished layers of two such passes agree.
proof fn lemma_backward_agree(
    net: NetworkModel,
    a: BackwardModel,
    b: BackwardModel,
    arithmetic: Arithmetic,
    upto: int,
)
    requires
        a.wf(net),
        b.wf(net),
        a.complete(net),
        b.complete(net),
        a.forward == b.forward,
        a.answer == b.answer,
        a.follows(net, arithmetic),
        b.follows(net, arithmetic),
        0 <= upto <= net.layers.len(),
    ensures
        forall|k: int| 0 <= k < upto ==> a.layers[k] == b.layers[k],
    decreases upto,
{
    if upto > 0 {
        lemma_backward_agree(net, a, b, arithmetic, upto - 1);
        let k = upto - 1;
        assert forall|n: int| 0 <= n < a.layers[k].len() implies a.layers[k][n] == b.layers[k][n] by {
            assert(a.task_at(net, k, n) == b.task_at(net, k, n));
            assert(a.layers[k][n] == (arithmetic.error)(a.task_at(net, k, n)));
            assert(b.layers[k][n] == (arithmetic.error)(b.task_at(net, k, n)));
        }
        assert(a.layers[k] =~= b.layers[k]);
    }
}

/// An update that was fed by an arithmetic up to now is still fed by it
/// once it has recorded that arithmetic's answer for the parameter in turn.
pub proof fn lemma_update_keeps_following(
    net: NetworkModel,
    pass: UpdateModel,
    arithmetic: Arithmetic,
    value: u64,
)
    requires
        pass.wf(net),
        !pass.complete(net),
        pass.follows(net, arithmetic),
        value == (arithmetic.adjust)(pass.pending(net)),
    ensures
        pass.supplied(net, value).follows(net, arithmetic),
{
    let after = pass.supplied(net, value);
    let l = pass.layers.len() as int;
    let n = pass.neurons.len() as int;
    let bias = if pass.bias is None {
        value
    } else {
        pass.bias->0
    };
    let weights = if pass.bias is None {
        pass.weights
    } else {
        pass.weights.push(value)
    };
    let neuron = NeuronModel { bias, weights };
    assert(pass.neuron_follows(net, arithmetic, l, n, neuron)) by {
        assert forall|k: int| 0 <= k < weights.len() implies #[trigger] weights[k] == (
        arithmetic.adjust)(pass.weight_task(net, l, n, k)) by {
            match pass.bias {
                Some(known) => {
                    assert(pass.pending(net) == pass.weight_task(
                        net,
                        l,
                        n,
                        pass.weights.len() as int,
                    ));
                    if k < pass.weights.len() {
                        let partial = NeuronModel { bias: known, weights: pass.weights };
                        assert(pass.neuron_follows(net, arithmetic, l, n, partial));
                        assert(partial.weights[k] == (arithmetic.adjust)(
                            pass.weight_task(net, l, n, k),
                        ));
                        assert(weights[k] == pass.weights[k]);
                    } else {
                        assert(weights[k] == value);
                    }
                },
                None => {},
            }
        }
        match pass.bias {
            Some(known) => {
                assert(pass.neuron_follows(
                    net,
                    arithmetic,
                    l,
                    n,
                    NeuronModel { bias: known, weights: pass.weights },
                ));
            },
            None => {
                assert(pass.pending(net) == pass.bias_task(net, l, n));
            },
        }
    }
    assert forall|i: int, j: int|
        0 <= i < after.layers.len() && 0 <= j < after.layers[i].len() implies after.neuron_follows(
        net,
        arithmetic,
        i,
        j,
        #[trigger] after.layers[i][j],
    ) by {
        if i < l {
            assert(after.layers[i] == pass.layers[i]);
            assert(pass.neuron_follows(net, arithmetic, i, j, pass.layers[i][j]));
        } else if j < n {
            assert(after.layers[i][j] == pass.neurons[j]);
            assert(pass.neuron_follows(net, arithmetic, l, j, pass.neurons[j]));
        } else {
            assert(after.layers[i][j] == neuron);
        }
    }
    assert forall|j: int| 0 <= j < after.neurons.len() implies after.neuron_follows(
        net,
        arithmetic,
        after.layers.len() as int,
        j,
        #[trigger] after.neurons[j],
    ) by {
        if j < n {
            assert(after.neurons[j] == pass.neurons[j]);
            assert(pass.neuron_follows(net, arithmetic, l, j, pass.neurons[j]));
        } else {
            assert(after.neurons[j] == neuron);
        }
    }
}

/// The new parameters are those of the old ones and of the error signals
/// that were derived from the old ones: two finished updates at the same
/// rate over the same backward pass, against the same network and fed by
/// the same arithmetic, hold the same new parameters.
pub proof fn lemma_update_determined(
    net: NetworkModel,
    a: UpdateModel,
    b: UpdateModel,
    arithmetic: Arithmetic,
)
    requires
        a.wf(net),
        b.wf(net),
        a.complete(net),
        b.complete(net),
        a.backward == b.backward,
        a.rate == b.rate,
        a.follows(net, arithmetic),
        b.follows(net, arithmetic),
    ensures
        a.layers == b.layers,
{
    assert forall|l: int| 0 <= l < a.layers.len() implies a.layers[l] == b.layers[l] by {
        assert forall|n: int| 0 <= n < a.layers[l].len() implies a.layers[l][n] == b.layers[l][n] by {
            let x = a.layers[l][n];
            let y = b.layers[l][n];
            assert(a.neuron_follows(net, arithmetic, l, n, x));
            assert(b.neuron_follows(net, arithmetic, l, n, y));
            assert(x.weights.len() == net.fan_in(l));
            assert(y.weights.len() == net.fan_in(l));
            assert forall|k: int| 0 <= k < x.weights.len() implies x.weights[k] == y.weights[k] by {
                assert(a.weight_task(net, l, n, k) == b.weight_task(net, l, n, k));
            }
            assert(x.weights =~= y.weights);
            assert(a.bias_task(net, l, n) == b.bias_task(net, l, n));
        }
        assert(a.layers[l] =~= b.layers[l]);
    }
    assert(a.layers =~= b.layers);
}

/// The update of an example rests on the weights from before it: take a
/// finished update against a network, fed by an arithmetic, over a backward
/// pass fed by the same arithmetic. Whoever derives the error signals again
/// from that network, which is the one that the update has not yet changed,
/// finds the signals of the pass, and every new parameter is the answer of
/// the arithmetic to the old parameter and to the signal so derived.
pub proof fn lemma_update_rests_on_old_weights(
    net: NetworkModel,
    update: UpdateModel,
    derived: BackwardModel,
    arithmetic: Arithmetic,
)
    requires
        update.wf(net),
        update.complete(net),
        update.follows(net, arithmetic),
        update.backward.follows(net, arithmetic),
        derived.wf(net),
        derived.complete(net),
        derived.forward == update.backward.forward,
        derived.answer == update.backward.answer,
        derived.follows(net, arithmetic),
    ensures
        derived.layers == update.backward.layers,
        forall|l: int, n: int|
            0 <= l < net.layers.len() && 0 <= n < net.layers[l].len() ==> {
                &&& (#[trigger] update.layers[l][n]).bias == (arithmetic.adjust)(
                    Adjustment::Bias {
                        bias: net.layers[l][n].bias,
                        error: derived.errors(net, l)[n],
                        rate: update.rate,
                    },
                )
                &&& forall|k: int|
                    0 <= k < net.layers[l][n].weights.len() ==> #[trigger] update.layers[l][n].weights[k]
                        == (arithmetic.adjust)(
                        Adjustment::Weight {
                            weight: net.layers[l][n].weights[k],
                            error: derived.errors(net, l)[n],
                            input: derived.forward.feed(l)[k],
                            rate: update.rate,
                        },
                    )
            },
{
    lemma_backward_determined(net, derived, update.backward, arithmetic);
    assert forall|l: int, n: int|
        0 <= l < net.layers.len() && 0 <= n < net.layers[l].len() implies {
        &&& (#[trigger] update.layers[l][n]).bias == (arithmetic.adjust)(
            Adjustment::Bias {
                bias: net.layers[l][n].bias,
                error: derived.errors(net, l)[n],
                rate: update.rate,
            },
        )
        &&& forall|k: int|
            0 <= k < net.layers[l][n].weights.len() ==> #[trigger] update.layers[l][n].weights[k]
                == (arithmetic.adjust)(
                Adjustment::Weight {
                    weight: net.layers[l][n].weights[k],
                    error: derived.errors(net, l)[n],
                    input: derived.forward.feed(l)[k],
                    rate: update.rate,
                },
            )
    } by {
        let neuron = update.layers[l][n];
        assert(update.neuron_follows(net, arithmetic, l, n, neuron));
        assert(neuron.weights.len() == net.fan_in(l));
        assert(net.layers[l][n].weights.len() == net.fan_in(l));
        assert forall|k: int| 0 <= k < net.layers[l][n].weights.len() implies #[trigger] neuron.weights[k]
            == (arithmetic.adjust)(
            Adjustment::Weight {
                weight: net.layers[l][n].weights[k],
                error: derived.errors(net, l)[n],
                input: derived.forward.feed(l)[k],
                rate: update.rate,
            },
        ) by {
            assert(neuron.weights[k] == (arithmetic.adjust)(update.weight_task(net, l, n, k)));
        }
    }
}

} // verus!
