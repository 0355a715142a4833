use vstd::prelude::*;

use super::{wander_step, wander_target};
use crate::components::Position;
use crate::map::{cell_index, in_bounds, lemma_cell_in_map, GameMap};
use crate::rng::roll_dice;

verus! {

/// Lets harmless town folk wander about.
pub struct BystanderAISystem;

/// A wander roll from `(x, y)` leads to a cell inside the outer ring that
/// nobody blocks.
pub open spec fn wander_open(map: GameMap, x: int, y: int, roll: int) -> bool {
    let t = wander_target(x, y, roll);
    &&& 0 < t.0 < map.width - 1
    &&& 0 < t.1 < map.height - 1
    &&& !map.blocked@[cell_index(map.width as int, t.0, t.1)]
}

/// What a wander roll does to a bystander standing at `from`: where the roll
/// leads to an open cell it steps there, freeing its old cell and blocking
/// the new one; otherwise it stays and nothing changes. The tiles and the
/// size of the map never change.
pub open spec fn wander_outcome(
    before: GameMap,
    from: Position,
    roll: int,
    moved: bool,
    after: GameMap,
    to: Position,
) -> bool {
    let t = wander_target(from.x as int, from.y as int, roll);
    &&& moved == wander_open(before, from.x as int, from.y as int, roll)
    &&& after.tiles@ == before.tiles@
    &&& after.width == before.width
    &&& after.height == before.height
    &&& moved ==> {
        &&& to.x == t.0
        &&& to.y == t.1
        &&& after.blocked@ == before.blocked@.update(
            cell_index(before.width as int, from.x as int, from.y as int),
            false,
        ).update(cell_index(before.width as int, t.0, t.1), true)
    }
    &&& !moved ==> to == from && after.blocked@ == before.blocked@
}

impl BystanderAISystem {
    /// A random step for a bystander at `pos`: a 1d5 roll picks west, east,
    /// north, south or staying put; the bystander moves when the cell lies
    /// inside the outer ring and is not blocked, freeing its old cell and
    /// blocking the new one. Returns whether it moved.
    pub fn wander(map: &mut GameMap, pos: &mut Position, rng: &mut rltk::RandomNumberGenerator) -> (moved: bool)
        requires
            old(map).wf(),
            i32::MIN < old(pos).x < i32::MAX,
            i32::MIN < old(pos).y < i32::MAX,
        ensures
            final(map).wf(),
            exists|r: int|
                1 <= r <= 5 && #[trigger] wander_outcome(*old(map), *old(pos), r, moved, *final(map), *final(pos)),
    {
        let roll = roll_dice(rng, 1, 5);
        Self::wander_with_roll(map, pos, roll)
    }

    /// The step of a bystander at `pos` for a given wander roll (1 west,
    /// 2 east, 3 north, 4 south, anything else stay): it moves when the cell
    /// lies inside the outer ring and is not blocked. Returns whether it
    /// moved.
    pub fn wander_with_roll(map: &mut GameMap, pos: &mut Position, roll: i32) -> (moved: bool)
        requires
            old(map).wf(),
            i32::MIN < old(pos).x < i32::MAX,
            i32::MIN < old(pos).y < i32::MAX,
        ensures
            final(map).wf(),
            wander_outcome(*old(map), *old(pos), roll as int, moved, *final(map), *final(pos)),
    {
        let (x, y) = wander_step(pos.x, pos.y, roll);
        if x > 0 && x < map.width - 1 && y > 0 && y < map.height - 1 {
            proof {
                lemma_cell_in_map(map.width as int, map.height as int, x as int, y as int);
                assert(in_bounds(map.width as int, map.height as int, pos.x as int, pos.y as int));
                lemma_cell_in_map(map.width as int, map.height as int, pos.x as int, pos.y as int);
            }
            let dest_idx = map.xy_idx(x, y);
            if !map.blocked[dest_idx] {
                let idx = map.xy_idx(pos.x, pos.y);
                let moved = map.move_blocker(idx, dest_idx);
                pos.x = x;
                pos.y = y;
                return moved;
            }
        }
        false
    }
}

} // verus!
