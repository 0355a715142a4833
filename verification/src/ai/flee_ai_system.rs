use vstd::prelude::*;

verus! {

/// Moves frightened creatures away from what they fear.
pub struct FleeAI;

impl FleeAI {
    /// The step to take given the best escape cell found, if any, and
    /// whether something stands in it: the cell when it is free.
    pub fn flee_step(escape: Option<usize>, escape_blocked: bool) -> (step: Option<usize>)
        ensures
            step == (match escape {
                Some(t) => if escape_blocked {
                    None
                } else {
                    Some(t)
                },
                None => None,
            }),
    {
        match escape {
            Some(t) => if escape_blocked {
                None
            } else {
                Some(t)
            },
            None => None,
        }
    }
}

} // verus!
