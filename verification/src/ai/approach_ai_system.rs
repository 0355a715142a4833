use vstd::prelude::*;

verus! {

/// Moves creatures one step along a path towards what they want to reach.
pub struct ApproachAI;

impl ApproachAI {
    /// The step to take given a path search result: the second cell of a
    /// successful path of at least two cells (the first is where the
    /// creature stands), otherwise none.
    pub fn next_step(success: bool, steps: &Vec<usize>) -> (step: Option<usize>)
        ensures
            step == (if success && steps@.len() > 1 {
                Some(steps@[1])
            } else {
                None
            }),
    {
        if success && steps.len() > 1 {
            Some(steps[1])
        } else {
            None
        }
    }
}

} // verus!
