use vstd::prelude::*;

pub mod adjacent_ai_system;
pub mod approach_ai_system;
pub mod bystander_ai_system;
pub mod chase_ai_system;
pub mod default_move_ai;
pub mod flee_ai_system;
pub mod initiative_system;
pub mod quip_system;
pub mod turn_status_system;
pub mod visible_ai_system;

verus! {

/// How one faction treats another.
#[derive(PartialEq, Eq, Structural, Copy, Clone, Debug)]
pub enum Reaction {
    Ignore,
    Attack,
    Flee,
}

/// The cell a random wander roll leads to from `(x, y)`: 1 west, 2 east,
/// 3 north, 4 south, anything else stay.
pub open spec fn wander_target(x: int, y: int, roll: int) -> (int, int) {
    if roll == 1 {
        (x - 1, y)
    } else if roll == 2 {
        (x + 1, y)
    } else if roll == 3 {
        (x, y - 1)
    } else if roll == 4 {
        (x, y + 1)
    } else {
        (x, y)
    }
}

/// Returns the cell a wander roll leads to.
pub fn wander_step(x: i32, y: i32, roll: i32) -> (t: (i32, i32))
    requires
        i32::MIN < x < i32::MAX,
        i32::MIN < y < i32::MAX,
    ensures
        (t.0 as int, t.1 as int) == wander_target(x as int, y as int, roll as int),
{
    match roll {
        1 => (x - 1, y),
        2 => (x + 1, y),
        3 => (x, y - 1),
        4 => (x, y + 1),
        _ => (x, y),
    }
}

} // verus!
