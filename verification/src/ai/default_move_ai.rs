use vstd::prelude::*;

use super::{wander_step, wander_target};
use crate::map::tiletype::is_walkable;
use crate::map::{cell_index, lemma_cell_in_map, tile_walkable, GameMap};
use crate::rng::roll_dice;

verus! {

/// Moves creatures that have nothing better to do: not at all, at random,
/// or along a path to a random walkable cell.
pub struct DefaultMoveAI;

/// What a creature following a path does this turn.
#[derive(PartialEq, Eq, Structural, Copy, Clone, Debug)]
pub enum WaypointStep {
    /// Step onto this cell; the path now starts there.
    Move { dest: usize },
    /// The next cell is occupied: wait for it to clear.
    Wait,
    /// The path is walked: pick a new destination next time.
    Arrived,
}

/// Cell `(x, y)` lies strictly inside the outer ring of the map.
pub open spec fn in_interior(map: &GameMap, x: int, y: int) -> bool {
    0 < x < map.width - 1 && 0 < y < map.height - 1
}

/// The destination the cell `(x, y)` offers: its index when its tile can
/// be walked on, else none.
pub open spec fn waypoint_choice(map: &GameMap, x: int, y: int) -> Option<usize> {
    let i = cell_index(map.width as int, x, y);
    if is_walkable(map.tiles@[i]) {
        Some(i as usize)
    } else {
        None
    }
}

/// The step a wander roll offers from `(x, y)`: the rolled cell's index
/// when it lies inside the outer ring, else none.
pub open spec fn step_destination(map: &GameMap, x: int, y: int, roll: int) -> Option<usize> {
    let t = wander_target(x, y, roll);
    if in_interior(map, t.0, t.1) {
        Some(cell_index(map.width as int, t.0, t.1) as usize)
    } else {
        None
    }
}

/// What a randomly moving creature does on its turn.
#[derive(PartialEq, Eq, Structural, Copy, Clone, Debug)]
pub struct MoveTurn {
    /// The cell it steps onto, if any.
    pub dest: Option<usize>,
    /// Its turn is used up.
    pub turn_done: bool,
}

/// A randomly moving creature's turn for a wander roll: the offered step
/// when nobody blocks that cell, and the turn used up either way.
pub open spec fn random_move_turn(map: &GameMap, x: int, y: int, roll: int) -> MoveTurn {
    let dest = match step_destination(map, x, y, roll) {
        Some(d) => if map.blocked@[d as int] {
            None
        } else {
            Some(d)
        },
        None => None,
    };
    MoveTurn { dest, turn_done: true }
}

impl DefaultMoveAI {
    /// A random step from `(x, y)`: a 1d5 roll picks west, east, north,
    /// south or staying put; the step is offered only when it stays inside
    /// the outer ring (whether someone stands there is checked by the
    /// caller).
    pub fn random_destination(map: &GameMap, rng: &mut rltk::RandomNumberGenerator, x: i32, y: i32) -> (dest: Option<usize>)
        requires
            map.wf(),
            i32::MIN < x < i32::MAX,
            i32::MIN < y < i32::MAX,
        ensures
            exists|r: int| 1 <= r <= 5 && dest == #[trigger] step_destination(map, x as int, y as int, r),
    {
        let roll = roll_dice(rng, 1, 5);
        Self::destination_for_roll(map, x, y, roll)
    }

    /// The step from `(x, y)` for a wander roll (1 west, 2 east, 3 north,
    /// 4 south, anything else stay): the cell's index when it lies inside
    /// the outer ring, else none.
    pub fn destination_for_roll(map: &GameMap, x: i32, y: i32, roll: i32) -> (dest: Option<usize>)
        requires
            map.wf(),
            i32::MIN < x < i32::MAX,
            i32::MIN < y < i32::MAX,
        ensures
            dest == step_destination(map, x as int, y as int, roll as int),
            dest matches Some(d) ==> d < map.cell_count(),
    {
        let (tx, ty) = wander_step(x, y, roll);
        if tx > 0 && tx < map.width - 1 && ty > 0 && ty < map.height - 1 {
            proof {
                lemma_cell_in_map(map.width as int, map.height as int, tx as int, ty as int);
            }
            Some(map.xy_idx(tx, ty))
        } else {
            None
        }
    }

    /// A randomly moving creature's turn at `(x, y)`: a 1d5 roll picks the
    /// step, which it takes when the cell lies inside the outer ring and
    /// nobody blocks it. Its turn is used up either way.
    pub fn random_move(map: &GameMap, rng: &mut rltk::RandomNumberGenerator, x: i32, y: i32) -> (turn: MoveTurn)
        requires
            map.wf(),
            i32::MIN < x < i32::MAX,
            i32::MIN < y < i32::MAX,
        ensures
            exists|r: int| 1 <= r <= 5 && turn == #[trigger] random_move_turn(map, x as int, y as int, r),
    {
        let roll = roll_dice(rng, 1, 5);
        Self::random_move_for_roll(map, x, y, roll)
    }

    /// A randomly moving creature's turn at `(x, y)` for a wander roll: it
    /// steps onto the rolled cell when that lies inside the outer ring and is
    /// not blocked; its turn is used up either way.
    pub fn random_move_for_roll(map: &GameMap, x: i32, y: i32, roll: i32) -> (turn: MoveTurn)
        requires
            map.wf(),
            i32::MIN < x < i32::MAX,
            i32::MIN < y < i32::MAX,
        ensures
            turn == random_move_turn(map, x as int, y as int, roll as int),
    {
        let dest = match Self::destination_for_roll(map, x, y, roll) {
            Some(d) => if map.blocked[d] {
                None
            } else {
                Some(d)
            },
            None => None,
        };
        MoveTurn { dest, turn_done: true }
    }

    /// One turn along a path that starts at the creature's cell: step to
    /// the next cell unless it is occupied; with no next cell, the path is
    /// done.
    pub fn follow_waypoint(path: &mut Vec<usize>, next_blocked: bool) -> (step: WaypointStep)
        ensures
            old(path)@.len() > 1 && !next_blocked ==> step == (WaypointStep::Move { dest: old(path)@[1] })
                && final(path)@ == old(path)@.subrange(1, old(path)@.len() as int),
            old(path)@.len() > 1 && next_blocked ==> step == WaypointStep::Wait && final(path)@ == old(path)@,
            old(path)@.len() <= 1 ==> step == WaypointStep::Arrived && final(path)@ == old(path)@,
    {
        if path.len() > 1 {
            if !next_blocked {
                let dest = path[1];
                path.remove(0);
                assert(path@ =~= old(path)@.subrange(1, old(path)@.len() as int));
                WaypointStep::Move { dest }
            } else {
                WaypointStep::Wait
            }
        } else {
            WaypointStep::Arrived
        }
    }

    /// Picks a random cell inside the outer ring as the next destination:
    /// a 1d(width-2) roll for the column and a 1d(height-2) roll for the
    /// row; the cell is offered only when it can be walked on.
    pub fn random_waypoint_target(map: &GameMap, rng: &mut rltk::RandomNumberGenerator) -> (target: Option<usize>)
        requires
            map.wf(),
            map.width >= 3,
            map.height >= 3,
        ensures
            exists|x: int, y: int|
                1 <= x <= map.width - 2 && 1 <= y <= map.height - 2 && target == #[trigger] waypoint_choice(map, x, y),
    {
        let tx = roll_dice(rng, 1, map.width - 2);
        let ty = roll_dice(rng, 1, map.height - 2);
        Self::waypoint_target_at(map, tx, ty)
    }

    /// The destination picked by the rolls `(x, y)`: the index of that cell
    /// when it can be walked on, else none.
    pub fn waypoint_target_at(map: &GameMap, x: i32, y: i32) -> (target: Option<usize>)
        requires
            map.wf(),
            1 <= x <= map.width - 2,
            1 <= y <= map.height - 2,
        ensures
            target == waypoint_choice(map, x as int, y as int),
    {
        proof {
            lemma_cell_in_map(map.width as int, map.height as int, x as int, y as int);
        }
        let idx = map.xy_idx(x, y);
        if tile_walkable(map.tiles[idx]) {
            Some(idx)
        } else {
            None
        }
    }
}

} // verus!
