use vstd::prelude::*;

use super::MenuKey;
use crate::components::{Pool, Pools};

verus! {

/// What the cheat menu made of the last key press.
#[derive(PartialEq, Eq, Structural, Copy, Clone, Debug)]
pub enum CheatMenuResult {
    NoResponse,
    Cancel,
    TeleportToExit,
    MagicMapper,
    Heal,
    GodMode,
    GetRich,
}

/// The cheat menu's answer: T teleports to the exit, M reveals the map,
/// H heals, G gives god mode, L gives gold, Escape cancels; anything else,
/// or no key, is no response.
pub open spec fn cheat_answer(key: Option<MenuKey>) -> CheatMenuResult {
    match key {
        Some(MenuKey::Letter { index }) => if index == 19 {
            CheatMenuResult::TeleportToExit
        } else if index == 12 {
            CheatMenuResult::MagicMapper
        } else if index == 7 {
            CheatMenuResult::Heal
        } else if index == 6 {
            CheatMenuResult::GodMode
        } else if index == 11 {
            CheatMenuResult::GetRich
        } else {
            CheatMenuResult::NoResponse
        },
        Some(MenuKey::Escape) => CheatMenuResult::Cancel,
        _ => CheatMenuResult::NoResponse,
    }
}

/// Returns the cheat menu's answer to a key press.
pub fn show_cheat_mode(key: Option<MenuKey>) -> (r: CheatMenuResult)
    ensures
        r == cheat_answer(key),
{
    match key {
        Some(MenuKey::Letter { index }) => {
            if index == 19 {
                CheatMenuResult::TeleportToExit
            } else if index == 12 {
                CheatMenuResult::MagicMapper
            } else if index == 7 {
                CheatMenuResult::Heal
            } else if index == 6 {
                CheatMenuResult::GodMode
            } else if index == 11 {
                CheatMenuResult::GetRich
            } else {
                CheatMenuResult::NoResponse
            }
        },
        Some(MenuKey::Escape) => CheatMenuResult::Cancel,
        _ => CheatMenuResult::NoResponse,
    }
}

/// The heal cheat: the player's hit points go to their maximum; nothing
/// else changes.
pub fn cheat_heal(pools: &mut Pools)
    ensures
        *final(pools) == (Pools {
            hit_points: Pool { max: old(pools).hit_points.max, current: old(pools).hit_points.max },
            ..*old(pools)
        }),
{
    pools.hit_points.current = pools.hit_points.max;
}

/// The god-mode cheat: the player can no longer be hurt; nothing else
/// changes.
pub fn cheat_god_mode(pools: &mut Pools)
    ensures
        *final(pools) == (Pools { god_mode: true, ..*old(pools) }),
{
    pools.god_mode = true;
}

} // verus!
