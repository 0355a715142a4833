use vstd::prelude::*;

use super::Reaction;
use crate::components::EntityId;
use crate::map::{cell_index, in_bounds, lemma_cell_in_map, GameMap};

verus! {

/// Makes creatures attack enemies standing right next to them.
pub struct AdjacentAI;

/// `s` with `v` appended when `b` holds.
pub open spec fn push_if_idx(s: Seq<i32>, b: bool, v: int) -> Seq<i32> {
    if b {
        s.push(v as i32)
    } else {
        s
    }
}

/// The indices of the cells around `(x, y)` that lie on a `w` x `h` map, in
/// the order west, east, north, south, north-west, north-east, south-west,
/// south-east.
pub open spec fn neighbours_of(w: int, h: int, x: int, y: int) -> Seq<i32> {
    let i = cell_index(w, x, y);
    let s1 = push_if_idx(Seq::empty(), x > 0, i - 1);
    let s2 = push_if_idx(s1, x < w - 1, i + 1);
    let s3 = push_if_idx(s2, y > 0, i - w);
    let s4 = push_if_idx(s3, y < h - 1, i + w);
    let s5 = push_if_idx(s4, y > 0 && x > 0, i - w - 1);
    let s6 = push_if_idx(s5, y > 0 && x < w - 1, i - w + 1);
    let s7 = push_if_idx(s6, y < h - 1 && x > 0, i + w - 1);
    push_if_idx(s7, y < h - 1 && x < w - 1, i + w + 1)
}

/// The target of the last attack among `reactions`, if any.
pub open spec fn last_attack(reactions: Seq<(EntityId, Reaction)>) -> Option<EntityId>
    decreases reactions.len(),
{
    if reactions.len() == 0 {
        None
    } else if reactions.last().1 == Reaction::Attack {
        Some(reactions.last().0)
    } else {
        last_attack(reactions.drop_last())
    }
}

impl AdjacentAI {
    /// Returns the indices of the cells around `(x, y)` that lie on the map.
    pub fn neighbour_indices(map: &GameMap, x: i32, y: i32) -> (n: Vec<i32>)
        requires
            map.wf(),
            in_bounds(map.width as int, map.height as int, x as int, y as int),
        ensures
            n@ == neighbours_of(map.width as int, map.height as int, x as int, y as int),
    {
        let ghost wi = map.width as int;
        let ghost hi = map.height as int;
        proof {
            lemma_cell_in_map(wi, hi, x as int, y as int);
            assert(cell_index(wi, x as int, y as int) + wi + 1 <= wi * hi + wi) by (nonlinear_arith)
                requires
                    cell_index(wi, x as int, y as int) < wi * hi,
            ;
            assert(wi * hi + wi <= 2 * (i32::MAX as int)) by (nonlinear_arith)
                requires
                    wi * hi <= i32::MAX,
                    wi <= i32::MAX,
            ;
        }
        let idx = map.xy_idx(x, y) as i32;
        let w = map.width;
        let h = map.height;
        let mut n: Vec<i32> = Vec::new();
        if x > 0 {
            n.push(idx - 1);
        }
        if x < w - 1 {
            n.push(idx + 1);
        }
        if y > 0 {
            proof { crate::map::lemma_row_start_at_least_width(wi, x as int, y as int); }
            n.push(idx - w);
        }
        if y < h - 1 {
            proof { crate::map::lemma_step_down_in_range(wi, hi, x as int, y as int); }
            n.push(idx + w);
        }
        if y > 0 && x > 0 {
            proof { crate::map::lemma_row_start_at_least_width(wi, x as int, y as int); }
            n.push(idx - w - 1);
        }
        if y > 0 && x < w - 1 {
            proof { crate::map::lemma_row_start_at_least_width(wi, x as int, y as int); }
            n.push(idx - w + 1);
        }
        if y < h - 1 && x > 0 {
            proof { crate::map::lemma_step_down_in_range(wi, hi, x as int, y as int); }
            n.push(idx + w - 1);
        }
        if y < h - 1 && x < w - 1 {
            proof { crate::map::lemma_step_down_in_range(wi, hi, x as int, y as int); }
            n.push(idx + w + 1);
        }
        assert(n@ =~= neighbours_of(wi, hi, x as int, y as int));
        n
    }

    /// Given the reactions to the neighbours `(neighbour, reaction)`, returns
    /// whom to attack: the last neighbour reacted to with an attack. A
    /// creature that attacks has used its turn.
    pub fn melee_target(reactions: &Vec<(EntityId, Reaction)>) -> (target: Option<EntityId>)
        ensures
            target == last_attack(reactions@),
    {
        let mut target: Option<EntityId> = None;
        let mut i: usize = 0;
        while i < reactions.len()
            invariant
                i <= reactions@.len(),
                target == last_attack(reactions@.subrange(0, i as int)),
            decreases reactions@.len() - i,
        {
            assert(reactions@.subrange(0, i + 1).drop_last() =~= reactions@.subrange(0, i as int));
            if reactions[i].1 == Reaction::Attack {
                target = Some(reactions[i].0);
            }
            i = i + 1;
        }
        assert(reactions@.subrange(0, reactions@.len() as int) =~= reactions@);
        target
    }
}

} // verus!
