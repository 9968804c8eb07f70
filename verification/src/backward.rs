//! The backward pass: the error signal of every neuron, from the output
//! layer down to the first layer, all of them against the weights that the
//! forward pass used.
use vstd::prelude::*;
use crate::error::NetworkError;
use crate::forward::{rows_model, Forward, ForwardModel};
use crate::network::{layer_model, Network, NetworkModel};
use crate::scalar::copy_codes;

verus! {

/// A backward pass in progress or finished, over a finished forward pass.
/// The neuron whose error signal is asked for next is the one after the last
/// signal recorded: the output layer first, then the layers below it in
/// turn, and the neurons of a layer in order.
#[derive(Debug, Clone, PartialEq, Eq)]
pub struct Backward {
    /// The forward pass of the same example.
    pub forward: Forward,
    /// The class that the example belongs to.
    pub answer: String,
    /// The error signals of the layers that are finished, output layer first.
    pub layers: Vec<Vec<u64>>,
    /// The error signals recorded so far of the layer in progress.
    pub row: Vec<u64>,
}

/// What a backward pass is.
pub struct BackwardModel {
    pub forward: ForwardModel,
    pub answer: Seq<char>,
    pub layers: Seq<Seq<u64>>,
    pub row: Seq<u64>,
}

impl View for Backward {
    type V = BackwardModel;

    open spec fn view(&self) -> BackwardModel {
        BackwardModel {
            forward: self.forward@,
            answer: self.answer@,
            layers: rows_model(self.layers@),
            row: self.row@,
        }
    }
}

/// What is needed to compute one error signal.
#[derive(Debug, Clone, PartialEq, Eq)]
pub enum ErrorTask {
    /// For an output neuron: its activation, and whether its class is the
    /// one that the example belongs to.
    Output { activation: u64, target: bool },
    /// For a hidden neuron: its activation, the error signals of the layer
    /// above, and the weights through which it feeds that layer, one for
    /// each neuron above, in order.
    Hidden { activation: u64, errors: Vec<u64>, weights: Vec<u64> },
}

/// What an error task is.
pub enum ErrorTaskModel {
    Output { activation: u64, target: bool },
    Hidden { activation: u64, errors: Seq<u64>, weights: Seq<u64> },
}

impl View for ErrorTask {
    type V = ErrorTaskModel;

    open spec fn view(&self) -> ErrorTaskModel {
        match self {
            ErrorTask::Output { activation, target } => ErrorTaskModel::Output {
                activation: *activation,
                target: *target,
            },
            ErrorTask::Hidden { activation, errors, weights } => ErrorTaskModel::Hidden {
                activation: *activation,
                errors: errors@,
                weights: weights@,
            },
        }
    }
}

impl BackwardModel {
    /// The pass fits the network: it stands on a finished forward pass,
    /// each finished layer has one error signal for each of its neurons, and
    /// the layer in progress is not yet full.
    pub open spec fn wf(self, net: NetworkModel) -> bool {
        &&& self.forward.wf(net)
        &&& self.forward.complete(net)
        &&& self.layers.len() <= net.layers.len()
        &&& forall|k: int|
            0 <= k < self.layers.len() ==> (#[trigger] self.layers[k]).len() == net.layers[net.top()
                - k].len()
        &&& if self.complete(net) {
            self.row.len() == 0
        } else {
            self.row.len() < net.layers[self.turn(net)].len()
        }
    }

    /// Every layer has its error signals.
    pub open spec fn complete(self, net: NetworkModel) -> bool {
        self.layers.len() == net.layers.len()
    }

    /// The index of the layer in progress.
    pub open spec fn turn(self, net: NetworkModel) -> int {
        net.top() - self.layers.len()
    }

    /// The error signals of layer `l`, once that layer is finished.
    pub open spec fn errors(self, net: NetworkModel, l: int) -> Seq<u64> {
        self.layers[net.top() - l]
    }

    /// What is needed for the error signal of neuron `n` of the layer that is
    /// `k` layers below the output layer.
    pub open spec fn task_at(self, net: NetworkModel, k: int, n: int) -> ErrorTaskModel {
        let l = net.top() - k;
        if k <= 0 {
            ErrorTaskModel::Output {
                activation: self.forward.layers[l][n],
                target: net.names[n] == self.answer,
            }
        } else {
            ErrorTaskModel::Hidden {
                activation: self.forward.layers[l][n],
                errors: self.layers[k - 1],
                weights: net.column(l + 1, n),
            }
        }
    }

    /// What is handed out for the neuron in turn.
    pub open spec fn pending(self, net: NetworkModel) -> ErrorTaskModel {
        self.task_at(net, self.layers.len() as int, self.row.len() as int)
    }

    /// The pass after `error` was recorded for the neuron in turn.
    pub open spec fn supplied(self, net: NetworkModel, error: u64) -> BackwardModel {
        if self.row.len() + 1 == net.layers[self.turn(net)].len() {
            BackwardModel {
                forward: self.forward,
                answer: self.answer,
                layers: self.layers.push(self.row.push(error)),
                row: Seq::empty(),
            }
        } else {
            BackwardModel {
                forward: self.forward,
                answer: self.answer,
                layers: self.layers,
                row: self.row.push(error),
            }
        }
    }
}

impl Network {
    /// Starts the backward pass of an example of class `answer` over its
    /// finished forward pass. Fails with `InvalidState` when the forward
    /// pass is unfinished.
    pub fn backward(&self, forward: Forward, answer: String) -> (pass: Result<
        Backward,
        NetworkError,
    >)
        requires
            forward@.wf(self@),
        ensures
            !forward@.complete(self@) ==> pass == Err::<Backward, NetworkError>(
                NetworkError::InvalidState,
            ),
            forward@.complete(self@) ==> pass is Ok,
            pass matches Ok(fresh) ==> {
                &&& fresh@.wf(self@)
                &&& fresh@.forward == forward@
                &&& fresh@.answer == answer@
                &&& fresh@.layers.len() == 0
                &&& fresh@.row.len() == 0
            },
    {
        if !forward.is_complete(self) {
            return Err(NetworkError::InvalidState);
        }
        Ok(Backward { forward, answer, layers: Vec::new(), row: Vec::new() })
    }
}

impl Backward {
    /// Whether the pass fits the network, whoever set the fields of either.
    pub fn fits(&self, net: &Network) -> (ok: bool)
        ensures
            ok == self@.wf(net@),
    {
        if !self.forward.fits(net) {
            return false;
        }
        if !self.forward.is_complete(net) {
            return false;
        }
        let hidden: usize = net.hidden_layers.len();
        let done: usize = self.layers.len();
        if done > hidden && done - hidden > 1 {
            return false;
        }
        let mut k: usize = 0;
        while k < done
            invariant
                k <= done == self.layers@.len(),
                done <= hidden + 1,
                hidden == net@.top(),
                net.wf(),
                forall|j: int|
                    0 <= j < k ==> (#[trigger] self@.layers[j]).len() == net@.layers[net@.top()
                        - j].len(),
            decreases done - k,
        {
            let layer = net.layer(hidden - k);
            assert(layer_model(layer@).len() == layer@.len());
            assert(self@.layers[k as int] == self.layers@[k as int]@);
            if self.layers[k].len() != layer.len() {
                return false;
            }
            k += 1;
        }
        if done > hidden {
            self.row.len() == 0
        } else {
            let layer = net.layer(hidden - done);
            assert(layer_model(layer@).len() == layer@.len());
            self.row.len() < layer.len()
        }
    }

    /// Whether every layer has its error signals.
    pub fn is_complete(&self, net: &Network) -> (done: bool)
        requires
            self@.wf(net@),
        ensures
            done == self@.complete(net@),
    {
        self.layers.len() > net.hidden_layers.len()
    }

    /// What is needed to compute the error signal of the neuron in turn. The
    /// weights handed out for a hidden neuron are those that the network
    /// holds now.
    pub fn pending(&self, net: &Network) -> (task: ErrorTask)
        requires
            self@.wf(net@),
            !self@.complete(net@),
        ensures
            task@ == self@.pending(net@),
    {
        let done: usize = self.layers.len();
        let l: usize = net.hidden_layers.len() - done;
        let n: usize = self.row.len();
        assert(self@.forward.layers[l as int] == self.forward.layers@[l as int]@);
        let activation: u64 = self.forward.layers[l][n];
        if done == 0 {
            assert(net@.names[n as int] == net.names@[n as int]@);
            let target: bool = net.names[n] == self.answer;
            ErrorTask::Output { activation, target }
        } else {
            assert(self@.layers[done - 1] == self.layers@[done - 1]@);
            let errors: Vec<u64> = copy_codes(&self.layers[done - 1]);
            let weights: Vec<u64> = net.column(l + 1, n);
            ErrorTask::Hidden { activation, errors, weights }
        }
    }

    /// Records the error signal of the neuron in turn. A signal for a
    /// finished pass is refused with `InvalidState`, and the pass stays as
    /// it was.
    pub fn supply(&mut self, net: &Network, error: u64) -> (done: Result<(), NetworkError>)
        requires
            old(self)@.wf(net@),
        ensures
            final(self)@.wf(net@),
            old(self)@.complete(net@) ==> done == Err::<(), NetworkError>(
                NetworkError::InvalidState,
            ),
            !old(self)@.complete(net@) ==> done is Ok,
            done is Ok ==> final(self)@ == old(self)@.supplied(net@, error),
            done is Err ==> final(self)@ == old(self)@,
    {
        if self.layers.len() > net.hidden_layers.len() {
            return Err(NetworkError::InvalidState);
        }
        let l: usize = net.hidden_layers.len() - self.layers.len();
        let layer = net.layer(l);
        assert(layer_model(layer@).len() == layer@.len());
        let width: usize = layer.len();
        self.row.push(error);
        if self.row.len() == width {
            let mut full: Vec<u64> = Vec::new();
            std::mem::swap(&mut self.row, &mut full);
            self.layers.push(full);
            assert(self@.layers =~= old(self)@.layers.push(old(self)@.row.push(error)));
        }
        assert(self@.row =~= old(self)@.supplied(net@, error).row);
        Ok(())
    }
}

} // verus!
