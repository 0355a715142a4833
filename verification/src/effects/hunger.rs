use vstd::prelude::*;

use crate::components::{HungerClock, HungerState};

verus! {

/// The turns a meal keeps an entity well fed.
pub const WELL_FED_TURNS: i32 = 20;

/// Eating: the entity becomes well fed for 20 turns, whatever its hunger.
pub fn well_fed(clock: &mut HungerClock)
    ensures
        *final(clock) == (HungerClock { state: HungerState::WellFed, duration: WELL_FED_TURNS }),
{
    clock.state = HungerState::WellFed;
    clock.duration = WELL_FED_TURNS;
}

} // verus!
