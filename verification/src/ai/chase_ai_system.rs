use vstd::prelude::*;

verus! {

/// Moves chasing creatures towards their target, giving up on far ones.
pub struct ChaseAI;

/// The longest path, in cells, a chase is kept up along (exclusive).
pub const CHASE_PATH_LIMIT: usize = 15;

/// The step a path search result gives: the second cell of a successful
/// path of two to fourteen cells, else none.
pub open spec fn chase_step(success: bool, steps: Seq<usize>) -> Option<usize> {
    if success && 1 < steps.len() < CHASE_PATH_LIMIT {
        Some(steps[1])
    } else {
        None
    }
}

/// What a chasing creature does on its turn.
#[derive(PartialEq, Eq, Structural, Copy, Clone, Debug)]
pub struct ChaseTurn {
    /// The cell it moves to, if any.
    pub step: Option<usize>,
    /// It gives up the chase.
    pub stop_chasing: bool,
    /// Its turn is used up.
    pub turn_done: bool,
}

impl ChaseAI {
    /// A chasing creature's turn. When its target no longer has a place it
    /// gives up the chase but keeps its turn for another system. Otherwise
    /// its turn is used up: it takes the path's step if there is one, and
    /// gives up the chase if not.
    pub fn chase_turn(target_placed: bool, success: bool, steps: &Vec<usize>) -> (turn: ChaseTurn)
        ensures
            !target_placed ==> turn == (ChaseTurn { step: None, stop_chasing: true, turn_done: false }),
            target_placed ==> turn == (ChaseTurn {
                step: chase_step(success, steps@),
                stop_chasing: chase_step(success, steps@) is None,
                turn_done: true,
            }),
    {
        if !target_placed {
            return ChaseTurn { step: None, stop_chasing: true, turn_done: false };
        }
        let step = Self::next_step(success, steps);
        ChaseTurn { step, stop_chasing: step.is_none(), turn_done: true }
    }

    /// The step to take given a path search result: the second cell of a
    /// successful path of two to fourteen cells. Otherwise none, and the
    /// chase ends.
    pub fn next_step(success: bool, steps: &Vec<usize>) -> (step: Option<usize>)
        ensures
            step == (if success && 1 < steps@.len() < CHASE_PATH_LIMIT {
                Some(steps@[1])
            } else {
                None
            }),
    {
        if success && steps.len() > 1 && steps.len() < CHASE_PATH_LIMIT {
            Some(steps[1])
        } else {
            None
        }
    }
}

} // verus!
