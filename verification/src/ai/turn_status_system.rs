use vstd::prelude::*;

use crate::components::EntityId;

verus! {

/// Takes the turn away from confused creatures.
pub struct TurnStatusSystem;

/// The creatures that lose their turn: for every status effect, in order,
/// its target if that target has the turn and the effect is a confusion.
pub open spec fn confused_skips(turns: Seq<EntityId>, statuses: Seq<(EntityId, bool)>) -> Seq<EntityId>
    decreases statuses.len(),
{
    if statuses.len() == 0 {
        Seq::empty()
    } else {
        let rest = confused_skips(turns, statuses.drop_last());
        let (target, confusion) = statuses.last();
        if turns.contains(target) && confusion {
            rest.push(target)
        } else {
            rest
        }
    }
}

impl TurnStatusSystem {
    /// Given the creatures that have the turn and the status effects as
    /// `(target, is a confusion)`, returns the creatures that skip it.
    pub fn skipped_turns(turns: &Vec<EntityId>, statuses: &Vec<(EntityId, bool)>) -> (skipped: Vec<EntityId>)
        ensures
            skipped@ == confused_skips(turns@, statuses@),
    {
        let mut skipped: Vec<EntityId> = Vec::new();
        let mut i: usize = 0;
        while i < statuses.len()
            invariant
                i <= statuses@.len(),
                skipped@ == confused_skips(turns@, statuses@.subrange(0, i as int)),
            decreases statuses@.len() - i,
        {
            assert(statuses@.subrange(0, i + 1).drop_last() =~= statuses@.subrange(0, i as int));
            let (target, confusion) = statuses[i];
            let mut has_turn = false;
            let mut j: usize = 0;
            while j < turns.len()
                invariant
                    j <= turns@.len(),
                    has_turn == exists|k: int| 0 <= k < j && turns@[k] == target,
                decreases turns@.len() - j,
            {
                if turns[j] == target {
                    has_turn = true;
                }
                j = j + 1;
            }
            if has_turn && confusion {
                skipped.push(target);
            }
            i = i + 1;
        }
        assert(statuses@.subrange(0, statuses@.len() as int) =~= statuses@);
        skipped
    }
}

} // verus!
