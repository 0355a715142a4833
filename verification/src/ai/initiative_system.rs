use vstd::prelude::*;

use crate::components::{Duration, Initiative};
use crate::rng::roll_dice;
use crate::run_state::RunState;

verus! {

/// Counts every creature's initiative down and hands out turns.
pub struct InitiativeSystem;

/// The result of one initiative tick for a creature.
#[derive(PartialEq, Eq, Structural, Copy, Clone, Debug)]
pub struct InitiativeTick {
    /// The creature acts this tick.
    pub my_turn: bool,
    /// The creature is the player, whose turn it now is: the game waits for input.
    pub awaiting_input: bool,
}

/// The squared distance between two cells `dx` and `dy` apart.
pub open spec fn dist_sq(dx: int, dy: int) -> int {
    dx * dx + dy * dy
}

/// A creature acts only within 20 cells of the player (the player always
/// acts). For whole-cell offsets, a distance above 20 is a squared distance
/// above 400.
pub open spec fn in_activity_range(dx: int, dy: int) -> bool {
    dist_sq(dx, dy) <= 400
}

/// A bonus or penalty that may be missing counts as 0.
pub open spec fn or_zero(v: Option<i32>) -> int {
    match v {
        Some(b) => b as int,
        None => 0,
    }
}

/// The initiative a due creature re-rolls to: 6 plus the 1d6 roll, less its
/// quickness bonus, plus its whole initiative penalty.
pub open spec fn rerolled(roll: int, quickness_bonus: Option<i32>, penalty: Option<i32>) -> int {
    6 + roll - or_zero(quickness_bonus) + or_zero(penalty)
}

impl InitiativeSystem {
    /// Initiative is only counted down while the game is ticking.
    pub fn runs_in(state: RunState) -> (active: bool)
        ensures
            active == (state == RunState::Ticking),
    {
        match state {
            RunState::Ticking => true,
            _ => false,
        }
    }

    /// The new initiative of a due creature for a 1d6 roll of `roll`.
    pub fn reroll(roll: i32, quickness_bonus: Option<i32>, penalty: Option<i32>) -> (current: i32)
        requires
            1 <= roll <= 6,
            12 - or_zero(quickness_bonus) <= i32::MAX,
            i32::MIN <= 7 - or_zero(quickness_bonus) + or_zero(penalty),
            12 - or_zero(quickness_bonus) + or_zero(penalty) <= i32::MAX,
        ensures
            current == rerolled(roll as int, quickness_bonus, penalty),
    {
        let mut current = 6 + roll;
        if let Some(b) = quickness_bonus {
            current = current - b;
        }
        if let Some(p) = penalty {
            current = current + p;
        }
        current
    }

    /// One tick for a creature standing `dx`, `dy` cells from the player:
    /// its initiative drops by one; when it falls below 1 the creature is
    /// due, its initiative is re-rolled as 6 + 1d6, less its quickness
    /// bonus, plus its whole initiative penalty, and it gets the turn if it
    /// is the player or within 20 cells of the player.
    pub fn tick(
        initiative: &mut Initiative,
        rng: &mut rltk::RandomNumberGenerator,
        is_player: bool,
        quickness_bonus: Option<i32>,
        penalty: Option<i32>,
        dx: i32,
        dy: i32,
    ) -> (t: InitiativeTick)
        requires
            old(initiative).current > i32::MIN,
            12 - or_zero(quickness_bonus) <= i32::MAX,
            i32::MIN <= 7 - or_zero(quickness_bonus) + or_zero(penalty),
            12 - or_zero(quickness_bonus) + or_zero(penalty) <= i32::MAX,
        ensures
            old(initiative).current - 1 >= 1 ==> final(initiative).current == old(initiative).current - 1
                && t == (InitiativeTick { my_turn: false, awaiting_input: false }),
            old(initiative).current - 1 < 1 ==> {
                &&& exists|roll: int|
                    1 <= roll <= 6 && final(initiative).current == #[trigger] rerolled(roll, quickness_bonus, penalty)
                &&& t.awaiting_input == is_player
                &&& t.my_turn == (is_player || in_activity_range(dx as int, dy as int))
            },
    {
        initiative.current = initiative.current - 1;
        if initiative.current >= 1 {
            return InitiativeTick { my_turn: false, awaiting_input: false };
        }
        let roll = roll_dice(rng, 1, 6);
        initiative.current = Self::reroll(roll, quickness_bonus, penalty);
        assert(initiative.current == rerolled(roll as int, quickness_bonus, penalty));
        if is_player {
            InitiativeTick { my_turn: true, awaiting_input: true }
        } else {
            let (x, y) = (dx as i128, dy as i128);
            assert(0 <= x * x <= 0x4000_0000_0000_0000) by (nonlinear_arith)
                requires
                    -0x8000_0000 <= x <= 0x8000_0000,
            ;
            assert(0 <= y * y <= 0x4000_0000_0000_0000) by (nonlinear_arith)
                requires
                    -0x8000_0000 <= y <= 0x8000_0000,
            ;
            InitiativeTick { my_turn: x * x + y * y <= 400, awaiting_input: false }
        }
    }

    /// One player turn of a timed status effect on a living target: a turn
    /// is used up, damage-over-time deals its damage, and the effect ends
    /// (the target's equipment is re-evaluated) when no turn is left.
    pub fn tick_status(duration: &mut Duration, damage_over_time: Option<i32>) -> (r: (Option<i32>, bool))
        requires
            old(duration).turns > i32::MIN,
        ensures
            final(duration).turns == old(duration).turns - 1,
            r.0 == damage_over_time,
            r.1 == (final(duration).turns < 1),
    {
        duration.turns = duration.turns - 1;
        (damage_over_time, duration.turns < 1)
    }
}

} // verus!
