use vstd::prelude::*;

verus! {

/// The faults of the network. Each one ends the call in which it occurs.
#[derive(Debug, Clone, Copy, PartialEq, Eq, Structural)]
pub enum NetworkError {
    /// A vector's length differs from the width it is used against.
    DimensionMismatch,
    /// Two output classes carry the same name.
    DuplicateOutputName,
    /// The requested layers cannot form a network.
    InvalidShape,
    /// A neuron produced an activation that is not strictly between zero and one.
    NumericInstability,
    /// Training was asked for without any example.
    EmptyTrainingSet,
    /// A pass was used out of turn.
    InvalidState,
}

} // verus!
