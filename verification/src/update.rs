//! The update: new weights and biases for every neuron, computed only once
//! every error signal is known, and put into the network all at once.
use vstd::prelude::*;
use crate::backward::{Backward, BackwardModel};
use crate::error::NetworkError;
use crate::network::{layer_model, layers_model, neurons_fit, Layer, Network, NetworkModel};
use crate::neuron::{Neuron, NeuronModel};

verus! {

/// An update in progress or finished, over a finished backward pass. The
/// parameter whose new value is asked for next is the one after the last
/// value recorded: layers in order, the neurons of a layer in order, and of
/// a neuron the bias, then the weights in order. The network keeps its
/// parameters until the finished update is handed to it.
#[derive(Debug, Clone, PartialEq, Eq)]
pub struct Update {
    /// The backward pass of the same example.
    pub backward: Backward,
    /// The learning rate.
    pub rate: u64,
    /// The layers that are finished, with their new parameters.
    pub layers: Vec<Layer>,
    /// The finished neurons of the layer in progress.
    pub neurons: Vec<Neuron>,
    /// The new bias of the neuron in progress, once it is known.
    pub bias: Option<u64>,
    /// The new weights recorded so far of the neuron in progress.
    pub weights: Vec<u64>,
}

/// What an update is.
pub struct UpdateModel {
    pub backward: BackwardModel,
    pub rate: u64,
    pub layers: Seq<Seq<NeuronModel>>,
    pub neurons: Seq<NeuronModel>,
    pub bias: Option<u64>,
    pub weights: Seq<u64>,
}

impl View for Update {
    type V = UpdateModel;

    open spec fn view(&self) -> UpdateModel {
        UpdateModel {
            backward: self.backward@,
            rate: self.rate,
            layers: layers_model(self.layers@),
            neurons: layer_model(self.neurons@),
            bias: self.bias,
            weights: self.weights@,
        }
    }
}

/// What is needed to compute the new value of one parameter: its present
/// value, the error signal of its neuron, the learning rate and, for a
/// weight, the value that the weight was applied to in the forward pass.
#[derive(Debug, Clone, Copy, PartialEq, Eq, Structural)]
pub enum Adjustment {
    Bias { bias: u64, error: u64, rate: u64 },
    Weight { weight: u64, error: u64, input: u64, rate: u64 },
}

impl UpdateModel {
    /// The update fits the network: it stands on a finished backward pass,
    /// the finished layers and neurons have the shape of the network's, and
    /// the neuron and the layer in progress are not yet full.
    pub open spec fn wf(self, net: NetworkModel) -> bool {
        &&& self.backward.wf(net)
        &&& self.backward.complete(net)
        &&& self.layers.len() <= net.layers.len()
        &&& forall|l: int|
            0 <= l < self.layers.len() ==> (#[trigger] self.layers[l]).len() == net.layers[l].len()
        &&& forall|l: int, n: int|
            0 <= l < self.layers.len() && 0 <= n < self.layers[l].len() ==> (
            #[trigger] self.layers[l][n]).weights.len() == net.fan_in(l)
        &&& if self.complete(net) {
            &&& self.neurons.len() == 0
            &&& self.bias is None
            &&& self.weights.len() == 0
        } else {
            let l = self.layers.len() as int;
            &&& self.neurons.len() < net.layers[l].len()
            &&& forall|n: int|
                0 <= n < self.neurons.len() ==> (#[trigger] self.neurons[n]).weights.len()
                    == net.fan_in(l)
            &&& self.bias is None ==> self.weights.len() == 0
            &&& self.bias is Some ==> self.weights.len() < net.fan_in(l)
        }
    }

    /// Every parameter has its new value.
    pub open spec fn complete(self, net: NetworkModel) -> bool {
        self.layers.len() == net.layers.len()
    }

    /// What is needed for the new bias of neuron `n` of layer `l`.
    pub open spec fn bias_task(self, net: NetworkModel, l: int, n: int) -> Adjustment {
        Adjustment::Bias {
            bias: net.layers[l][n].bias,
            error: self.backward.errors(net, l)[n],
            rate: self.rate,
        }
    }

    /// What is needed for the new value of weight `k` of neuron `n` of layer
    /// `l`.
    pub open spec fn weight_task(self, net: NetworkModel, l: int, n: int, k: int) -> Adjustment {
        Adjustment::Weight {
            weight: net.layers[l][n].weights[k],
            error: self.backward.errors(net, l)[n],
            input: self.backward.forward.feed(l)[k],
            rate: self.rate,
        }
    }

    /// What is handed out for the parameter in turn.
    pub open spec fn pending(self, net: NetworkModel) -> Adjustment {
        let l = self.layers.len() as int;
        let n = self.neurons.len() as int;
        if self.bias is None {
            self.bias_task(net, l, n)
        } else {
            self.weight_task(net, l, n, self.weights.len() as int)
        }
    }

    /// The update after `value` was recorded for the parameter in turn.
    pub open spec fn supplied(self, net: NetworkModel, value: u64) -> UpdateModel {
        let l = self.layers.len() as int;
        let bias = if self.bias is None {
            value
        } else {
            self.bias->0
        };
        let weights = if self.bias is None {
            self.weights
        } else {
            self.weights.push(value)
        };
        let neurons = self.neurons.push(NeuronModel { bias, weights });
        if weights.len() < net.fan_in(l) {
            UpdateModel {
                backward: self.backward,
                rate: self.rate,
                layers: self.layers,
                neurons: self.neurons,
                bias: Some(bias),
                weights,
            }
        } else if neurons.len() < net.layers[l].len() {
            UpdateModel {
                backward: self.backward,
                rate: self.rate,
                layers: self.layers,
                neurons,
                bias: None,
                weights: Seq::empty(),
            }
        } else {
            UpdateModel {
                backward: self.backward,
                rate: self.rate,
                layers: self.layers.push(neurons),
                neurons: Seq::empty(),
                bias: None,
                weights: Seq::empty(),
            }
        }
    }
}

impl Network {
    /// Starts the update of an example with learning rate `rate` over its
    /// finished backward pass. Fails with `InvalidState` when some neuron
    /// has no error signal yet.
    pub fn update(&self, backward: Backward, rate: u64) -> (pass: Result<Update, NetworkError>)
        requires
            backward@.wf(self@),
        ensures
            !backward@.complete(self@) ==> pass == Err::<Update, NetworkError>(
                NetworkError::InvalidState,
            ),
            backward@.complete(self@) ==> pass is Ok,
            pass matches Ok(fresh) ==> {
                &&& fresh@.wf(self@)
                &&& fresh@.backward == backward@
                &&& fresh@.rate == rate
                &&& fresh@.layers.len() == 0
                &&& fresh@.neurons.len() == 0
                &&& fresh@.bias is None
                &&& fresh@.weights.len() == 0
            },
    {
        if !backward.is_complete(self) {
            return Err(NetworkError::InvalidState);
        }
        Ok(
            Update {
                backward,
                rate,
                layers: Vec::new(),
                neurons: Vec::new(),
                bias: None,
                weights: Vec::new(),
            },
        )
    }

    /// Puts the parameters of a finished update in place of the network's
    /// own; shape and names stay. Fails with `InvalidState` when the update
    /// is unfinished, and the network stays as it was.
    pub fn update_weights(&mut self, update: Update) -> (done: Result<(), NetworkError>)
        requires
            update@.wf(old(self)@),
        ensures
            final(self).wf(),
            !update@.complete(old(self)@) ==> done == Err::<(), NetworkError>(
                NetworkError::InvalidState,
            ) && final(self)@ == old(self)@,
            update@.complete(old(self)@) ==> done is Ok && final(self)@ == (NetworkModel {
                inputs: old(self)@.inputs,
                layers: update@.layers,
                names: old(self)@.names,
            }),
    {
        if update.layers.len() <= self.hidden_layers.len() {
            return Err(NetworkError::InvalidState);
        }
        let ghost new_layers = update@.layers;
        let mut layers: Vec<Layer> = update.layers;
        match layers.pop() {
            Some(output_layer) => {
                self.hidden_layers = layers;
                self.output_layer = output_layer;
                assert(self@.layers =~= new_layers);
                assert(self@.names == old(self)@.names);
                assert forall|l: int, n: int|
                    0 <= l < self@.layers.len() && 0 <= n < self@.layers[l].len() implies (
                #[trigger] self@.layers[l][n]).weights.len() == self@.fan_in(l) by {
                    assert(new_layers[l][n].weights.len() == old(self)@.fan_in(l));
                    if l > 0 {
                        assert(new_layers[l - 1].len() == old(self)@.layers[l - 1].len());
                    }
                }
                Ok(())
            },
            None => Err(NetworkError::InvalidState),
        }
    }
}

impl Update {
    /// Whether the update fits the network, whoever set the fields of
    /// either.
    pub fn fits(&self, net: &Network) -> (ok: bool)
        ensures
            ok == self@.wf(net@),
    {
        if !self.backward.fits(net) {
            return false;
        }
        if !self.backward.is_complete(net) {
            return false;
        }
        let hidden: usize = net.hidden_layers.len();
        let done: usize = self.layers.len();
        if done > hidden && done - hidden > 1 {
            return false;
        }
        let mut l: usize = 0;
        while l < done
            invariant
                l <= done == self.layers@.len(),
                done <= hidden + 1,
                hidden == net@.top(),
                net.wf(),
                forall|k: int|
                    0 <= k < l ==> (#[trigger] self@.layers[k]).len() == net@.layers[k].len(),
                forall|k: int, n: int|
                    0 <= k < l && 0 <= n < self@.layers[k].len() ==> (
                    #[trigger] self@.layers[k][n]).weights.len() == net@.fan_in(k),
            decreases done - l,
        {
            let layer = net.layer(l);
            assert(layer_model(layer@).len() == layer@.len());
            let fan: usize = net.fan_in(l);
            let made = &self.layers[l];
            assert(self@.layers[l as int] == layer_model(made@));
            if made.len() != layer.len() {
                return false;
            }
            if !neurons_fit(made, fan) {
                proof {
                    if self@.wf(net@) {
                        assert forall|n: int| 0 <= n < made@.len() implies (
                        #[trigger] made@[n]).weights@.len() == fan by {
                            assert(self@.layers[l as int][n] == made@[n]@);
                        }
                    }
                }
                return false;
            }
            proof {
                assert forall|n: int| 0 <= n < self@.layers[l as int].len() implies (
                #[trigger] self@.layers[l as int][n]).weights.len() == net@.fan_in(l as int) by {
                    assert(self@.layers[l as int][n] == made@[n]@);
                }
            }
            l += 1;
        }
        if done > hidden {
            self.neurons.len() == 0 && self.bias.is_none() && self.weights.len() == 0
        } else {
            let layer = net.layer(done);
            assert(layer_model(layer@).len() == layer@.len());
            let fan: usize = net.fan_in(done);
            if self.neurons.len() >= layer.len() {
                return false;
            }
            if !neurons_fit(&self.neurons, fan) {
                proof {
                    if self@.wf(net@) {
                        assert forall|n: int| 0 <= n < self.neurons@.len() implies (
                        #[trigger] self.neurons@[n]).weights@.len() == fan by {
                            assert(self@.neurons[n] == self.neurons@[n]@);
                        }
                    }
                }
                return false;
            }
            proof {
                assert forall|n: int| 0 <= n < self@.neurons.len() implies (
                #[trigger] self@.neurons[n]).weights.len() == net@.fan_in(done as int) by {
                    assert(self@.neurons[n] == self.neurons@[n]@);
                }
            }
            match self.bias {
                None => self.weights.len() == 0,
                Some(_) => self.weights.len() < fan,
            }
        }
    }

    /// Whether every parameter has its new value.
    pub fn is_complete(&self, net: &Network) -> (done: bool)
        requires
            self@.wf(net@),
        ensures
            done == self@.complete(net@),
    {
        self.layers.len() > net.hidden_layers.len()
    }

    /// What is needed to compute the new value of the parameter in turn.
    pub fn pending(&self, net: &Network) -> (task: Adjustment)
        requires
            self@.wf(net@),
            !self@.complete(net@),
        ensures
            task == self@.pending(net@),
    {
        let l: usize = self.layers.len();
        let n: usize = self.neurons.len();
        let k: usize = self.weights.len();
        let top: usize = net.hidden_layers.len();
        assert(self@.backward.layers[top - l] == self.backward.layers@[top - l]@);
        let error: u64 = self.backward.layers[top - l][n];
        let layer = net.layer(l);
        assert(layer_model(layer@).len() == layer@.len());
        let neuron = &layer[n];
        assert(layer_model(layer@)[n as int] == neuron@);
        assert(neuron@.weights.len() == net@.fan_in(l as int));
        match self.bias {
            None => Adjustment::Bias { bias: neuron.bias, error, rate: self.rate },
            Some(_) => {
                let input: u64 = if l == 0 {
                    self.backward.forward.inputs[k]
                } else {
                    assert(self@.backward.forward.layers[l - 1]
                        == self.backward.forward.layers@[l - 1]@);
                    self.backward.forward.layers[l - 1][k]
                };
                Adjustment::Weight { weight: neuron.weights[k], error, input, rate: self.rate }
            },
        }
    }

    /// Records the new value of the parameter in turn. A value for a
    /// finished update is refused with `InvalidState`, and the update stays
    /// as it was.
    pub fn supply(&mut self, net: &Network, value: u64) -> (done: Result<(), NetworkError>)
        requires
            old(self)@.wf(net@),
        ensures
            final(self)@.wf(net@),
            old(self)@.complete(net@) ==> done == Err::<(), NetworkError>(
                NetworkError::InvalidState,
            ),
            !old(self)@.complete(net@) ==> done is Ok,
            done is Ok ==> final(self)@ == old(self)@.supplied(net@, value),
            done is Err ==> final(self)@ == old(self)@,
    {
        if self.layers.len() > net.hidden_layers.len() {
            return Err(NetworkError::InvalidState);
        }
        let l: usize = self.layers.len();
        let fan: usize = net.fan_in(l);
        let layer = net.layer(l);
        assert(layer_model(layer@).len() == layer@.len());
        let width: usize = layer.len();
        let bias: u64 = match self.bias {
            None => value,
            Some(known) => {
                self.weights.push(value);
                known
            },
        };
        if self.weights.len() < fan {
            self.bias = Some(bias);
        } else {
            let mut weights: Vec<u64> = Vec::new();
            std::mem::swap(&mut self.weights, &mut weights);
            self.bias = None;
            self.neurons.push(Neuron { bias, weights });
            assert(self@.neurons =~= old(self)@.neurons.push(
                NeuronModel { bias, weights: weights@ },
            ));
            if self.neurons.len() == width {
                let mut neurons: Vec<Neuron> = Vec::new();
                std::mem::swap(&mut self.neurons, &mut neurons);
                self.layers.push(neurons);
                assert(self@.layers =~= old(self)@.layers.push(layer_model(neurons@)));
                assert(self@.neurons =~= Seq::empty());
            }
            assert(self@.weights =~= Seq::empty());
        }
        Ok(())
    }
}

} // verus!
