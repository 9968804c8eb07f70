use vstd::prelude::*;
use crate::error::NetworkError;
use crate::scalar::{all_initial, is_initial};

verus! {

/// A unit of the network: a bias and one weight for each input that feeds it.
#[derive(Debug, Clone, PartialEq, Eq)]
pub struct Neuron {
    pub bias: u64,
    pub weights: Vec<u64>,
}

/// What a neuron is: its bias and the sequence of its weights.
pub struct NeuronModel {
    pub bias: u64,
    pub weights: Seq<u64>,
}

impl NeuronModel {
    /// The bias and every weight lie in the range that the parameters of a
    /// new network are drawn from.
    pub open spec fn initial(self) -> bool {
        &&& is_initial(self.bias)
        &&& all_initial(self.weights)
    }
}

impl View for Neuron {
    type V = NeuronModel;

    open spec fn view(&self) -> NeuronModel {
        NeuronModel { bias: self.bias, weights: self.weights@ }
    }
}

impl Neuron {
    /// Whether `parameters` holds, from position `start` on, a bias and
    /// `inputs` weights.
    pub open spec fn fits(inputs: usize, parameters: Seq<u64>, start: usize) -> bool {
        start + inputs + 1 <= parameters.len()
    }

    /// A neuron fed by `inputs` inputs, with its parameters taken from
    /// `parameters`: the bias at position `start`, the weights after it, in
    /// order. Fails with `DimensionMismatch` when fewer than `inputs + 1`
    /// values are left from `start` on.
    pub fn new(inputs: usize, parameters: &Vec<u64>, start: usize) -> (made: Result<
        Neuron,
        NetworkError,
    >)
        ensures
            Self::fits(inputs, parameters@, start) ==> made is Ok,
            !Self::fits(inputs, parameters@, start) ==> made == Err::<Neuron, NetworkError>(
                NetworkError::DimensionMismatch,
            ),
            made matches Ok(neuron) ==> {
                &&& neuron.bias == parameters@[start as int]
                &&& neuron.weights@.len() == inputs
                &&& neuron.weights@ == parameters@.subrange(start + 1, start + 1 + inputs)
            },
    {
        if start >= parameters.len() || parameters.len() - start <= inputs {
            return Err(NetworkError::DimensionMismatch);
        }
        let bias: u64 = parameters[start];
        let mut weights: Vec<u64> = Vec::new();
        let mut k: usize = 0;
        while k < inputs
            invariant
                k <= inputs,
                start + inputs + 1 <= parameters.len(),
                weights@ == parameters@.subrange(start + 1, start + 1 + k),
            decreases inputs - k,
        {
            weights.push(parameters[start + 1 + k]);
            k += 1;
        }
        Ok(Neuron { bias, weights })
    }

    /// The number of inputs that feed this neuron.
    pub fn width(&self) -> (n: usize)
        ensures
            n == self@.weights.len(),
    {
        self.weights.len()
    }
}

} // verus!
