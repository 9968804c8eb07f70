use vstd::prelude::*;

verus! {

/// One labelled training example: an input vector and the name of the class
/// it belongs to. The name need not be one that a network knows.
#[derive(Debug, Clone, PartialEq, Eq)]
pub struct Series {
    pub inputs: Vec<u64>,
    pub answer: String,
}

impl Series {
    /// The example with these inputs and this expected class.
    pub fn new(inputs: Vec<u64>, answer: String) -> (series: Series)
        ensures
            series.inputs@ == inputs@,
            series.answer@ == answer@,
    {
        Series { inputs, answer }
    }
}

} // verus!
