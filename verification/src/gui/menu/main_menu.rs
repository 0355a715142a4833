use vstd::prelude::*;

use super::MenuKey;

verus! {

/// The entries of the main menu.
#[derive(PartialEq, Eq, Structural, Copy, Clone, Debug)]
pub enum MainMenuSelection {
    NewGame,
    LoadGame,
    Quit,
}

/// What the main menu made of the last key press: the entry now
/// highlighted, and whether it was chosen.
#[derive(PartialEq, Eq, Structural, Copy, Clone, Debug)]
pub enum MainMenuResult {
    NoSelection { highlighted: MainMenuSelection },
    Selected { highlighted: MainMenuSelection },
}

/// The entry highlighted after moving from `cur` up (`is_positive_direction`)
/// or down the list New game, Load game, Quit, wrapping round. The load
/// entry is skipped when there is no saved game.
pub open spec fn cycled(cur: MainMenuSelection, is_positive_direction: bool, save_exists: bool) -> MainMenuSelection {
    if is_positive_direction {
        match cur {
            MainMenuSelection::NewGame => MainMenuSelection::Quit,
            MainMenuSelection::LoadGame => MainMenuSelection::NewGame,
            MainMenuSelection::Quit => if save_exists {
                MainMenuSelection::LoadGame
            } else {
                MainMenuSelection::NewGame
            },
        }
    } else {
        match cur {
            MainMenuSelection::NewGame => if save_exists {
                MainMenuSelection::LoadGame
            } else {
                MainMenuSelection::Quit
            },
            MainMenuSelection::LoadGame => MainMenuSelection::Quit,
            MainMenuSelection::Quit => MainMenuSelection::NewGame,
        }
    }
}

/// Returns the entry highlighted after one step up or down.
pub fn cycle_hovering(cur_hovering: MainMenuSelection, is_positive_direction: bool, save_exists: bool) -> (next: MainMenuSelection)
    ensures
        next == cycled(cur_hovering, is_positive_direction, save_exists),
{
    if is_positive_direction {
        match cur_hovering {
            MainMenuSelection::NewGame => MainMenuSelection::Quit,
            MainMenuSelection::LoadGame => MainMenuSelection::NewGame,
            MainMenuSelection::Quit => {
                if save_exists {
                    MainMenuSelection::LoadGame
                } else {
                    MainMenuSelection::NewGame
                }
            },
        }
    } else {
        match cur_hovering {
            MainMenuSelection::NewGame => {
                if save_exists {
                    MainMenuSelection::LoadGame
                } else {
                    MainMenuSelection::Quit
                }
            },
            MainMenuSelection::LoadGame => MainMenuSelection::Quit,
            MainMenuSelection::Quit => MainMenuSelection::NewGame,
        }
    }
}

/// One step down undoes one step up, and one step up undoes one step down,
/// from any entry that the menu can show: every entry when a saved game
/// exists, New game and Quit when none does.
pub proof fn lemma_cycle_round_trip(cur: MainMenuSelection, save_exists: bool)
    requires
        save_exists || cur != MainMenuSelection::LoadGame,
    ensures
        cycled(cycled(cur, true, save_exists), false, save_exists) == cur,
        cycled(cycled(cur, false, save_exists), true, save_exists) == cur,
{
}

/// Without a saved game, moving up or down never highlights the load entry.
pub proof fn lemma_cycle_skips_load(cur: MainMenuSelection, up: bool)
    ensures
        cycled(cur, up, false) != MainMenuSelection::LoadGame,
{
}

/// Three steps in one direction come back to where they started, from any
/// entry when a saved game exists.
pub proof fn lemma_cycle_three_steps(cur: MainMenuSelection, up: bool)
    ensures
        cycled(cycled(cycled(cur, up, true), up, true), up, true) == cur,
{
}

/// The main menu's answer to `key` while `cur_hovering` is highlighted
/// (`None` when the game is not showing the main menu, which then offers
/// New game): Escape moves to Quit, Up and Down move the highlight, Return
/// chooses the highlighted entry, and any other key or none keeps it.
pub open spec fn main_menu_answer(cur_hovering: Option<MainMenuSelection>, key: Option<MenuKey>, save_exists: bool) -> MainMenuResult {
    match cur_hovering {
        None => MainMenuResult::NoSelection { highlighted: MainMenuSelection::NewGame },
        Some(cur) => match key {
            Some(MenuKey::Escape) => MainMenuResult::NoSelection { highlighted: MainMenuSelection::Quit },
            Some(MenuKey::Up) => MainMenuResult::NoSelection { highlighted: cycled(cur, true, save_exists) },
            Some(MenuKey::Down) => MainMenuResult::NoSelection { highlighted: cycled(cur, false, save_exists) },
            Some(MenuKey::Return) => MainMenuResult::Selected { highlighted: cur },
            _ => MainMenuResult::NoSelection { highlighted: cur },
        },
    }
}

/// Returns the main menu's answer to a key press.
pub fn main_menu(cur_hovering: Option<MainMenuSelection>, key: Option<MenuKey>, save_exists: bool) -> (r: MainMenuResult)
    ensures
        r == main_menu_answer(cur_hovering, key, save_exists),
{
    match cur_hovering {
        None => MainMenuResult::NoSelection { highlighted: MainMenuSelection::NewGame },
        Some(cur) => match key {
            Some(MenuKey::Escape) => MainMenuResult::NoSelection { highlighted: MainMenuSelection::Quit },
            Some(MenuKey::Up) => MainMenuResult::NoSelection {
                highlighted: cycle_hovering(cur, true, save_exists),
            },
            Some(MenuKey::Down) => MainMenuResult::NoSelection {
                highlighted: cycle_hovering(cur, false, save_exists),
            },
            Some(MenuKey::Return) => MainMenuResult::Selected { highlighted: cur },
            _ => MainMenuResult::NoSelection { highlighted: cur },
        },
    }
}

} // verus!
