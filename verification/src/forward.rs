//! The forward pass: the activations of every neuron, layer by layer.
use vstd::prelude::*;
use crate::error::NetworkError;
use crate::network::{layer_model, Network, NetworkModel};
use crate::neuron::Neuron;
use crate::scalar::{
    all_activations, check_activation, check_activations, copy_codes, first_max, first_max_at,
    is_activation,
};

verus! {

/// A forward pass in progress or finished. It holds the activations of one
/// input vector and nothing else, so nothing of it outlives the example it
/// was made for. The neuron whose activation is asked for next is the one
/// after the last activation recorded: layers in order, and the neurons of a
/// layer in order.
#[derive(Debug, Clone, PartialEq, Eq)]
pub struct Forward {
    /// The input vector.
    pub inputs: Vec<u64>,
    /// The activations of the layers that are finished, first layer first.
    pub layers: Vec<Vec<u64>>,
    /// The activations recorded so far of the layer in progress.
    pub row: Vec<u64>,
}

/// What a forward pass is.
pub struct ForwardModel {
    pub inputs: Seq<u64>,
    pub layers: Seq<Seq<u64>>,
    pub row: Seq<u64>,
}

/// Rows of encodings as sequences.
pub open spec fn rows_model(rows: Seq<Vec<u64>>) -> Seq<Seq<u64>> {
    rows.map_values(|row: Vec<u64>| row@)
}

impl View for Forward {
    type V = ForwardModel;

    open spec fn view(&self) -> ForwardModel {
        ForwardModel { inputs: self.inputs@, layers: rows_model(self.layers@), row: self.row@ }
    }
}

impl ForwardModel {
    /// The pass fits the network: the inputs have the network's width, each
    /// finished layer has one activation for each of its neurons, the layer
    /// in progress is not yet full, and whatever was recorded lies strictly
    /// between zero and one.
    pub open spec fn wf(self, net: NetworkModel) -> bool {
        &&& net.wf()
        &&& self.inputs.len() == net.inputs
        &&& self.layers.len() <= net.layers.len()
        &&& forall|l: int|
            0 <= l < self.layers.len() ==> {
                &&& (#[trigger] self.layers[l]).len() == net.layers[l].len()
                &&& all_activations(self.layers[l])
            }
        &&& all_activations(self.row)
        &&& if self.complete(net) {
            self.row.len() == 0
        } else {
            self.row.len() < net.layers[self.layers.len() as int].len()
        }
    }

    /// Every layer has its activations.
    pub open spec fn complete(self, net: NetworkModel) -> bool {
        self.layers.len() == net.layers.len()
    }

    /// The values that feed layer `l`: the input vector for the first layer,
    /// the activations of the layer below for any other.
    pub open spec fn feed(self, l: int) -> Seq<u64> {
        if l <= 0 {
            self.inputs
        } else {
            self.layers[l - 1]
        }
    }

    /// The activations of the output layer of a finished pass.
    pub open spec fn outputs(self) -> Seq<u64> {
        self.layers.last()
    }

    /// The pass after `activation` was recorded for the neuron in turn.
    pub open spec fn supplied(self, net: NetworkModel, activation: u64) -> ForwardModel {
        if self.row.len() + 1 == net.layers[self.layers.len() as int].len() {
            ForwardModel {
                inputs: self.inputs,
                layers: self.layers.push(self.row.push(activation)),
                row: Seq::empty(),
            }
        } else {
            ForwardModel { inputs: self.inputs, layers: self.layers, row: self.row.push(activation) }
        }
    }
}

impl Network {
    /// Starts a forward pass over `inputs`. Fails with `DimensionMismatch`
    /// when their number is not the network's input width.
    pub fn forward(&self, inputs: Vec<u64>) -> (pass: Result<Forward, NetworkError>)
        requires
            self.wf(),
        ensures
            inputs@.len() != self@.inputs ==> pass == Err::<Forward, NetworkError>(
                NetworkError::DimensionMismatch,
            ),
            inputs@.len() == self@.inputs ==> pass is Ok,
            pass matches Ok(fresh) ==> {
                &&& fresh@.wf(self@)
                &&& fresh@.inputs == inputs@
                &&& fresh@.layers.len() == 0
                &&& fresh@.row.len() == 0
            },
    {
        if inputs.len() != self.inputs {
            return Err(NetworkError::DimensionMismatch);
        }
        Ok(Forward { inputs, layers: Vec::new(), row: Vec::new() })
    }

    /// The class that a finished forward pass rates highest, with the
    /// activation of every output neuron. Of several classes with the
    /// highest activation the first one is named. Fails with `InvalidState`
    /// while the pass is unfinished.
    pub fn run_with_info<'a>(&'a self, pass: &Forward) -> (found: Result<
        (&'a String, Vec<u64>),
        NetworkError,
    >)
        requires
            pass@.wf(self@),
        ensures
            !pass@.complete(self@) ==> found == Err::<(&String, Vec<u64>), NetworkError>(
                NetworkError::InvalidState,
            ),
            pass@.complete(self@) ==> found is Ok,
            found matches Ok((name, outputs)) ==> {
                &&& outputs@ == pass@.outputs()
                &&& outputs@.len() == self@.names.len()
                &&& all_activations(outputs@)
                &&& name@ == self@.names[first_max_at(outputs@)]
            },
    {
        if pass.layers.len() <= self.hidden_layers.len() {
            return Err(NetworkError::InvalidState);
        }
        let top: usize = self.hidden_layers.len();
        let outputs: Vec<u64> = copy_codes(&pass.layers[top]);
        assert(pass@.layers[top as int] == pass.layers@[top as int]@);
        let at: usize = first_max(&outputs);
        assert(self@.names[at as int] == self.names@[at as int]@);
        Ok((&self.names[at], outputs))
    }

    /// The class that a finished forward pass rates highest.
    pub fn run<'a>(&'a self, pass: &Forward) -> (found: Result<&'a String, NetworkError>)
        requires
            pass@.wf(self@),
        ensures
            !pass@.complete(self@) ==> found == Err::<&String, NetworkError>(
                NetworkError::InvalidState,
            ),
            pass@.complete(self@) ==> found is Ok,
            found matches Ok(name) ==> name@ == self@.names[first_max_at(pass@.outputs())],
    {
        match self.run_with_info(pass) {
            Ok((name, _)) => Ok(name),
            Err(fault) => Err(fault),
        }
    }
}

impl Forward {
    /// Whether the pass fits the network, whoever set the fields of either.
    pub fn fits(&self, net: &Network) -> (ok: bool)
        ensures
            ok == self@.wf(net@),
    {
        if !net.is_valid() || self.inputs.len() != net.inputs {
            return false;
        }
        let hidden: usize = net.hidden_layers.len();
        let done: usize = self.layers.len();
        if done > hidden && done - hidden > 1 {
            return false;
        }
        let mut l: usize = 0;
        while l < done
            invariant
                l <= done == self.layers@.len(),
                done <= hidden + 1,
                hidden == net@.top(),
                net.wf(),
                forall|k: int|
                    0 <= k < l ==> {
                        &&& (#[trigger] self@.layers[k]).len() == net@.layers[k].len()
                        &&& all_activations(self@.layers[k])
                    },
            decreases done - l,
        {
            let layer = net.layer(l);
            assert(layer_model(layer@).len() == layer@.len());
            assert(self@.layers[l as int] == self.layers@[l as int]@);
            if self.layers[l].len() != layer.len() || !check_activations(&self.layers[l]) {
                return false;
            }
            l += 1;
        }
        if !check_activations(&self.row) {
            return false;
        }
        if done > hidden {
            self.row.len() == 0
        } else {
            let layer = net.layer(done);
            assert(layer_model(layer@).len() == layer@.len());
            self.row.len() < layer.len()
        }
    }

    /// Whether every layer has its activations.
    pub fn is_complete(&self, net: &Network) -> (done: bool)
        requires
            self@.wf(net@),
        ensures
            done == self@.complete(net@),
    {
        self.layers.len() > net.hidden_layers.len()
    }

    /// The neuron whose activation is to be computed next, and the values
    /// that feed it: as many as the neuron has weights.
    pub fn pending<'a>(&'a self, net: &'a Network) -> (task: (&'a Neuron, &'a Vec<u64>))
        requires
            self@.wf(net@),
            !self@.complete(net@),
        ensures
            task.0@ == net@.layers[self@.layers.len() as int][self@.row.len() as int],
            task.1@ == self@.feed(self@.layers.len() as int),
            task.0@.weights.len() == task.1@.len(),
    {
        let l: usize = self.layers.len();
        let layer = net.layer(l);
        assert(layer_model(layer@).len() == layer@.len());
        let neuron = &layer[self.row.len()];
        assert(layer_model(layer@)[self.row@.len() as int] == neuron@);
        assert(neuron@.weights.len() == net@.fan_in(l as int));
        if l == 0 {
            (neuron, &self.inputs)
        } else {
            assert(self@.layers[l - 1] == self.layers@[l - 1]@);
            (neuron, &self.layers[l - 1])
        }
    }

    /// Records the activation of the neuron in turn. An activation that is
    /// not strictly between zero and one is refused with
    /// `NumericInstability`, one for a finished pass with `InvalidState`,
    /// and the pass stays as it was.
    pub fn supply(&mut self, net: &Network, activation: u64) -> (done: Result<(), NetworkError>)
        requires
            old(self)@.wf(net@),
        ensures
            final(self)@.wf(net@),
            old(self)@.complete(net@) ==> done == Err::<(), NetworkError>(
                NetworkError::InvalidState,
            ),
            !old(self)@.complete(net@) && !is_activation(activation) ==> done == Err::<
                (),
                NetworkError,
            >(NetworkError::NumericInstability),
            !old(self)@.complete(net@) && is_activation(activation) ==> done is Ok,
            done is Ok ==> final(self)@ == old(self)@.supplied(net@, activation),
            done is Err ==> final(self)@ == old(self)@,
    {
        if self.layers.len() > net.hidden_layers.len() {
            return Err(NetworkError::InvalidState);
        }
        if !check_activation(activation) {
            return Err(NetworkError::NumericInstability);
        }
        let l: usize = self.layers.len();
        let layer = net.layer(l);
        assert(layer_model(layer@).len() == layer@.len());
        let width: usize = layer.len();
        self.row.push(activation);
        if self.row.len() == width {
            let mut full: Vec<u64> = Vec::new();
            std::mem::swap(&mut self.row, &mut full);
            self.layers.push(full);
            assert(self@.layers =~= old(self)@.layers.push(old(self)@.row.push(activation)));
        }
        assert(self@.row =~= old(self)@.supplied(net@, activation).row);
        Ok(())
    }
}

} // verus!
