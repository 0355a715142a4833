use vstd::prelude::*;

use super::Reaction;
use crate::components::EntityId;

verus! {

/// Decides what creatures do about the others they can see.
pub struct VisibleAI;

/// What a creature decides to do about what it sees.
pub struct VisibleDecision {
    /// Cast a special ability: the index of the reaction whose target it is
    /// cast at, and the index of the ability.
    pub cast: Option<(usize, usize)>,
    /// Approach and chase: the cell to head for and the entity to chase.
    pub approach: Option<(usize, EntityId)>,
    /// Flee from these cells.
    pub flee: Option<Vec<usize>>,
}

/// Reaction `k` is an attack.
pub open spec fn attacks(reactions: Seq<(usize, Reaction, EntityId)>, k: int) -> bool {
    reactions[k].1 == Reaction::Attack
}

/// Reaction `k` is the first attack.
pub open spec fn first_attack(reactions: Seq<(usize, Reaction, EntityId)>, k: int) -> bool {
    &&& 0 <= k < reactions.len()
    &&& attacks(reactions, k)
    &&& forall|j: int| 0 <= j < k ==> !attacks(reactions, j)
}

/// Reaction `k` is an attack with an ability to cast at its target.
pub open spec fn casts_at(reactions: Seq<(usize, Reaction, EntityId)>, casts: Seq<Option<usize>>, k: int) -> bool {
    attacks(reactions, k) && casts[k] is Some
}

/// Among the first `n` reactions, `k` is the last attack with an ability to
/// cast.
pub open spec fn last_cast(
    reactions: Seq<(usize, Reaction, EntityId)>,
    casts: Seq<Option<usize>>,
    n: int,
    k: int,
) -> bool {
    &&& 0 <= k < n
    &&& casts_at(reactions, casts, k)
    &&& forall|j: int| k < j < n ==> !casts_at(reactions, casts, j)
}

/// The cells of the flee reactions, in order.
pub open spec fn flee_cells(reactions: Seq<(usize, Reaction, EntityId)>) -> Seq<usize>
    decreases reactions.len(),
{
    if reactions.len() == 0 {
        Seq::empty()
    } else {
        let rest = flee_cells(reactions.drop_last());
        if reactions.last().1 == Reaction::Flee {
            rest.push(reactions.last().0)
        } else {
            rest
        }
    }
}

impl VisibleAI {
    /// Given the reactions to what the creature sees, `(cell, reaction,
    /// entity)`, and for each the ability that would be cast at it (the last
    /// one in range whose roll succeeded, if any), decides what to do: an
    /// attack reaction casts that ability, or else, for the first attack not
    /// already answered, approaches and chases the target; flee reactions
    /// gather cells to flee from, used only when nothing else was decided.
    pub fn decide(reactions: &Vec<(usize, Reaction, EntityId)>, casts: &Vec<Option<usize>>) -> (d: VisibleDecision)
        requires
            casts@.len() == reactions@.len(),
        ensures
            (forall|k: int| 0 <= k < reactions@.len() ==> !#[trigger] casts_at(reactions@, casts@, k)) ==> d.cast is None,
            forall|k: int| #[trigger]
                last_cast(reactions@, casts@, reactions@.len() as int, k) ==> d.cast == Some((k as usize, casts@[k]->0)),
            (forall|k: int| 0 <= k < reactions@.len() ==> !#[trigger] attacks(reactions@, k)) ==> d.approach is None,
            forall|k: int| #[trigger]
                first_attack(reactions@, k) ==> d.approach == if casts@[k] is None {
                    Some((reactions@[k].0, reactions@[k].2))
                } else {
                    None
                },
            d.flee is Some <==> (forall|k: int| 0 <= k < reactions@.len() ==> !#[trigger] attacks(reactions@, k))
                && flee_cells(reactions@).len() > 0,
            d.flee matches Some(f) ==> f@ == flee_cells(reactions@),
    {
        let mut cast: Option<(usize, usize)> = None;
        let mut approach: Option<(usize, EntityId)> = None;
        let mut done = false;
        let mut flee: Vec<usize> = Vec::new();
        let mut i: usize = 0;
        while i < reactions.len()
            invariant
                i <= reactions@.len(),
                casts@.len() == reactions@.len(),
                done <==> exists|j: int| 0 <= j < i && #[trigger] attacks(reactions@, j),
                (forall|k: int| 0 <= k < i ==> !#[trigger] casts_at(reactions@, casts@, k)) ==> cast is None,
                forall|k: int| #[trigger] last_cast(reactions@, casts@, i as int, k) ==> cast == Some((k as usize, casts@[k]->0)),
                !done ==> approach is None,
                forall|k: int| #[trigger]
                    first_attack(reactions@, k) && k < i ==> approach == if casts@[k] is None {
                        Some((reactions@[k].0, reactions@[k].2))
                    } else {
                        None
                    },
                flee@ == flee_cells(reactions@.take(i as int)),
            decreases reactions@.len() - i,
        {
            let (tgt_idx, reaction, target) = reactions[i];
            let ghost was_done = done;
            let ghost old_cast = cast;
            proof {
                assert(reactions@.take(i + 1).drop_last() =~= reactions@.take(i as int));
                assert(reactions@.take(i + 1).last() == reactions@[i as int]);
            }
            match reaction {
                Reaction::Attack => {
                    if let Some(a) = casts[i] {
                        cast = Some((i, a));
                        done = true;
                    }
                    if !done {
                        approach = Some((tgt_idx, target));
                        done = true;
                    }
                },
                Reaction::Flee => {
                    flee.push(tgt_idx);
                },
                Reaction::Ignore => {},
            }
            proof {
                assert forall|k: int| #[trigger] last_cast(reactions@, casts@, i + 1, k) implies cast == Some((k as usize, casts@[k]->0)) by {
                    if k < i {
                        assert(!casts_at(reactions@, casts@, i as int));
                        assert(last_cast(reactions@, casts@, i as int, k));
                    }
                }
                if forall|k: int| 0 <= k < i + 1 ==> !#[trigger] casts_at(reactions@, casts@, k) {
                    assert(!casts_at(reactions@, casts@, i as int));
                }
                if done {
                    if !was_done {
                        assert(attacks(reactions@, i as int));
                    }
                }
                assert forall|k: int| #[trigger] first_attack(reactions@, k) && k < i + 1 implies approach == if casts@[k] is None {
                    Some((reactions@[k].0, reactions@[k].2))
                } else {
                    None
                } by {
                    if k == i {
                        assert(!was_done);
                    }
                }
            }
            i = i + 1;
        }
        proof {
            assert(reactions@.take(reactions@.len() as int) =~= reactions@);
        }
        let flee_result = if !done && flee.len() > 0 {
            Some(flee)
        } else {
            None
        };
        VisibleDecision { cast, approach, flee: flee_result }
    }
}

} // verus!
