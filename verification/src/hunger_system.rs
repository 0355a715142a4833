use vstd::prelude::*;

use crate::components::{HungerClock, HungerState};

verus! {

/// Advances every hunger clock by one turn.
pub struct HungerSystem;

/// What the player is told when their hunger clock runs out.
#[derive(PartialEq, Eq, Structural, Copy, Clone, Debug)]
pub enum HungerMessage {
    /// "You are no longer well fed"
    NoLongerWellFed,
    /// "You are hungry"
    Hungry,
    /// "You are starving!"
    Starving,
    /// "Your hunger pangs are getting painful! You suffer 1 hp damage."
    HungerPangs,
}

/// The result of one hunger turn: the message to show (only ever for the
/// player) and the damage to inflict.
#[derive(PartialEq, Eq, Structural, Copy, Clone, Debug)]
pub struct HungerTurn {
    pub message: Option<HungerMessage>,
    pub damage: i32,
}

/// How bad a hunger state is, from 0 (well fed) to 3 (starving).
pub open spec fn hunger_rank(s: HungerState) -> int {
    match s {
        HungerState::WellFed => 0,
        HungerState::Normal => 1,
        HungerState::Hungry => 2,
        HungerState::Starving => 3,
    }
}

/// The state that follows `s` when its clock runs out.
pub open spec fn next_hunger_state(s: HungerState) -> HungerState {
    match s {
        HungerState::WellFed => HungerState::Normal,
        HungerState::Normal => HungerState::Hungry,
        HungerState::Hungry => HungerState::Starving,
        HungerState::Starving => HungerState::Starving,
    }
}

/// The turns each state lasts once reached.
pub const HUNGER_STATE_TURNS: i32 = 200;

impl HungerSystem {
    /// One turn of an entity's hunger clock: the clock counts down, and when
    /// it runs out the entity gets hungrier and the clock restarts at 200
    /// turns; a starving entity instead takes 1 point of damage every turn.
    pub fn tick(clock: &mut HungerClock, is_player: bool) -> (turn: HungerTurn)
        requires
            old(clock).duration > i32::MIN,
        ensures
            old(clock).duration - 1 >= 1 ==> *final(clock) == (HungerClock {
                state: old(clock).state,
                duration: (old(clock).duration - 1) as i32,
            }) && turn == (HungerTurn { message: None, damage: 0 }),
            old(clock).duration - 1 < 1 && old(clock).state != HungerState::Starving ==> *final(clock) == (HungerClock {
                state: next_hunger_state(old(clock).state),
                duration: HUNGER_STATE_TURNS,
            }) && turn.damage == 0 && (turn.message is Some <==> is_player),
            old(clock).duration - 1 < 1 && old(clock).state == HungerState::Starving ==> *final(clock) == (HungerClock {
                state: HungerState::Starving,
                duration: (old(clock).duration - 1) as i32,
            }) && turn.damage == 1 && turn.message == (if is_player {
                Some(HungerMessage::HungerPangs)
            } else {
                None
            }),
            is_player && old(clock).duration - 1 < 1 && old(clock).state == HungerState::WellFed ==> turn.message
                == Some(HungerMessage::NoLongerWellFed),
            is_player && old(clock).duration - 1 < 1 && old(clock).state == HungerState::Normal ==> turn.message
                == Some(HungerMessage::Hungry),
            is_player && old(clock).duration - 1 < 1 && old(clock).state == HungerState::Hungry ==> turn.message
                == Some(HungerMessage::Starving),
            hunger_rank(old(clock).state) <= hunger_rank(final(clock).state) <= hunger_rank(old(clock).state) + 1,
    {
        clock.duration = clock.duration - 1;
        if clock.duration >= 1 {
            return HungerTurn { message: None, damage: 0 };
        }
        let say = |m: HungerMessage| -> (o: Option<HungerMessage>)
            ensures
                o == (if is_player {
                    Some(m)
                } else {
                    None
                }),
            {
                if is_player {
                    Some(m)
                } else {
                    None
                }
            };
        match clock.state {
            HungerState::WellFed => {
                clock.state = HungerState::Normal;
                clock.duration = HUNGER_STATE_TURNS;
                HungerTurn { message: say(HungerMessage::NoLongerWellFed), damage: 0 }
            },
            HungerState::Normal => {
                clock.state = HungerState::Hungry;
                clock.duration = HUNGER_STATE_TURNS;
                HungerTurn { message: say(HungerMessage::Hungry), damage: 0 }
            },
            HungerState::Hungry => {
                clock.state = HungerState::Starving;
                clock.duration = HUNGER_STATE_TURNS;
                HungerTurn { message: say(HungerMessage::Starving), damage: 0 }
            },
            HungerState::Starving => {
                HungerTurn { message: say(HungerMessage::HungerPangs), damage: 1 }
            },
        }
    }
}

} // verus!
