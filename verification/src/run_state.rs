use vstd::prelude::*;

use crate::components::{EntityId, Point};
use crate::gui::menu::cheat::CheatMenuResult;
use crate::gui::menu::game_over::GameOverResult;
use crate::gui::menu::main_menu::{MainMenuResult, MainMenuSelection};
use crate::gui::menu::vendor::VendorResult;
use crate::gui::menu::ItemMenuResult;

verus! {

/// Whether the vendor screen shows what the vendor sells or what the
/// player could sell.
#[derive(PartialEq, Eq, Structural, Copy, Clone, Debug)]
pub enum VendorMode {
    Buy,
    Sell,
}

/// What the game is doing between two frames.
#[derive(PartialEq, Eq, Structural, Copy, Clone, Debug)]
pub enum RunState {
    AwaitingInput,
    PreRun,
    Ticking,
    ShowInventory,
    ShowDropItem,
    ShowRemoveItem,
    ShowTargeting { range: i32, item: EntityId },
    MainMenu { menu_selection: MainMenuSelection },
    SaveGame,
    NextLevel,
    PreviousLevel,
    TownPortal,
    GameOver,
    MagicMapReveal { row: i32 },
    MapGeneration,
    ShowCheatMenu,
    ShowVendor { vendor: EntityId, mode: VendorMode },
    TeleportingToOtherLevel { x: i32, y: i32, depth: i32 },
    ShowRemoveCurse,
    ShowIdentify,
}

impl RunState {
    /// The vendor screen of `vendor`, showing its wares.
    pub fn buy_vendor(vendor: EntityId) -> (s: RunState)
        ensures
            s == (RunState::ShowVendor { vendor, mode: VendorMode::Buy }),
    {
        RunState::ShowVendor { vendor, mode: VendorMode::Buy }
    }

    /// The vendor screen of `vendor`, showing what the player could sell.
    pub fn sell_vendor(vendor: EntityId) -> (s: RunState)
        ensures
            s == (RunState::ShowVendor { vendor, mode: VendorMode::Sell }),
    {
        RunState::ShowVendor { vendor, mode: VendorMode::Sell }
    }
}

/// Whether a frame in state `s` draws the map and the side panel: all but
/// the main menu and the game-over screen do.
pub open spec fn shows_map(s: RunState) -> bool {
    !(s is MainMenu || s is GameOver)
}

/// Returns whether a frame in state `s` draws the map and the side panel.
pub fn draws_map(s: RunState) -> (b: bool)
    ensures
        b == shows_map(s),
{
    match s {
        RunState::MainMenu { .. } => false,
        RunState::GameOver => false,
        _ => true,
    }
}

/// What the outside world reports for a frame: what the player pressed,
/// what a menu made of it, what the systems left, or the map's size.
#[allow(inconsistent_fields)]
#[derive(PartialEq, Eq, Structural, Copy, Clone, Debug)]
pub enum TickEvent {
    /// Nothing to report.
    Nothing,
    /// The state the player's key press asked for.
    PlayerInput { next: RunState },
    /// The state the systems left after one round of turns.
    SystemsRan { resource: RunState },
    /// An item menu's answer.
    ItemMenu { result: ItemMenuResult, item: Option<EntityId> },
    /// The inventory's answer, with the reach of the chosen item if it is
    /// used at range.
    Inventory { result: ItemMenuResult, item: Option<EntityId>, range: Option<i32> },
    /// The targeting screen's answer, and whether the item aimed is a
    /// spell.
    Target { result: ItemMenuResult, target: Option<Point>, is_spell: bool },
    /// The main menu's answer.
    MainMenu { result: MainMenuResult },
    /// The game-over screen's answer.
    GameOver { result: GameOverResult },
    /// The cheat menu's answer.
    Cheat { result: CheatMenuResult },
    /// The vendor screen's answer and the line it chose.
    Vendor { result: VendorResult, line: Option<usize> },
    /// The current level's depth.
    Depth { depth: i32 },
    /// The current level's height.
    MapHeight { height: i32 },
}

/// What the game must do for a frame besides changing state.
#[derive(PartialEq, Eq, Structural, Copy, Clone, Debug)]
pub enum TickAction {
    Nothing,
    /// Run one round of every system.
    RunSystems,
    /// Count one more turn in the event log.
    RecordTurn,
    /// The player's turn came round: update the targeting.
    EndTurnTargeting,
    /// The player wants to drop `item`.
    Drop { item: EntityId },
    /// The player wants to take off `item`.
    Remove { item: EntityId },
    /// The player wants to use `item`, at `target` if aimed.
    Use { item: EntityId, target: Option<Point> },
    /// The player wants to cast `spell` at `target`.
    Cast { spell: EntityId, target: Option<Point> },
    /// Load the saved game, then delete the save.
    LoadGame,
    /// Leave the program.
    Quit,
    /// Save the game.
    SaveGame,
    /// Freeze this level and go `offset` levels down (up when negative).
    GotoLevel { offset: i32 },
    /// Clear the world for a new game.
    GameOverCleanup,
    /// Reveal row `row` of the map.
    RevealRow { row: i32 },
    /// Reveal the whole map.
    RevealMap,
    /// Restore the player's hit points to the maximum.
    HealPlayer,
    /// Make the player unkillable.
    GodMode,
    /// Give the player a hundred gold.
    GetRich,
    /// Sell the item on line `line` of the vendor screen.
    Sell { line: usize },
    /// Buy the item on line `line` of the vendor screen.
    Buy { line: usize },
    /// Open a town portal here, then go `offset` levels to town.
    TownPortal { offset: i32 },
    /// Go `offset` levels and put the player at `(x, y)`.
    Teleport { offset: i32, x: i32, y: i32 },
    /// Lift the curse from `item`.
    RemoveCurse { item: EntityId },
    /// Identify `item`.
    Identify { item: EntityId },
}

/// The state between frames: what the game is doing, and where map
/// generation goes when it is done.
#[derive(PartialEq, Eq, Structural, Copy, Clone, Debug)]
pub struct TickState {
    pub run: RunState,
    pub mapgen_next: Option<RunState>,
}

/// What a frame leaves: the next state and what to do.
#[derive(PartialEq, Eq, Structural, Copy, Clone, Debug)]
pub struct TickOutcome {
    pub state: TickState,
    pub action: TickAction,
}

/// A frame that moves to `run` and does `action`, map generation's
/// successor unchanged.
pub open spec fn step(s: TickState, run: RunState, action: TickAction) -> TickOutcome {
    TickOutcome { state: TickState { run, mapgen_next: s.mapgen_next }, action }
}

/// A frame that does `action` and moves through map generation to PreRun.
pub open spec fn via_mapgen(action: TickAction) -> TickOutcome {
    TickOutcome {
        state: TickState { run: RunState::MapGeneration, mapgen_next: Some(RunState::PreRun) },
        action,
    }
}

/// A frame that changes nothing.
pub open spec fn stay(s: TickState) -> TickOutcome {
    TickOutcome { state: s, action: TickAction::Nothing }
}

/// Whether `s` can take event `e` without the game failing: an item chosen
/// in a menu is there, map generation knows where to go, and the level
/// arithmetic stays within `i32`.
pub open spec fn tick_defined(s: TickState, e: TickEvent) -> bool {
    match s.run {
        RunState::MapGeneration => s.mapgen_next is Some,
        RunState::ShowDropItem | RunState::ShowRemoveItem | RunState::ShowRemoveCurse | RunState::ShowIdentify => match e {
            TickEvent::ItemMenu { result, item } => result == ItemMenuResult::Selected ==> item is Some,
            _ => true,
        },
        RunState::ShowInventory => match e {
            TickEvent::Inventory { result, item, range } => result == ItemMenuResult::Selected ==> item is Some,
            _ => true,
        },
        RunState::ShowVendor { .. } => match e {
            TickEvent::Vendor { result, line } => (result == VendorResult::Sell || result == VendorResult::Buy)
                ==> line is Some,
            _ => true,
        },
        RunState::TownPortal => match e {
            TickEvent::Depth { depth } => depth > i32::MIN + 1,
            _ => true,
        },
        RunState::MagicMapReveal { row } => match e {
            TickEvent::MapHeight { height } => height > i32::MIN && (row != height - 1 ==> row < i32::MAX),
            _ => true,
        },
        RunState::TeleportingToOtherLevel { depth, .. } => depth > i32::MIN,
        _ => true,
    }
}

/// The state the game moves to after a round of turns left `resource`: the
/// player's turn, a town portal, the remove-curse or identify menu, a
/// teleport, or a map reveal from its first row end the rounds; anything
/// else runs another round.
pub open spec fn after_round(resource: RunState) -> RunState {
    match resource {
        RunState::AwaitingInput => RunState::AwaitingInput,
        RunState::TownPortal => RunState::TownPortal,
        RunState::ShowRemoveCurse => RunState::ShowRemoveCurse,
        RunState::ShowIdentify => RunState::ShowIdentify,
        RunState::TeleportingToOtherLevel { x, y, depth } => RunState::TeleportingToOtherLevel { x, y, depth },
        RunState::MagicMapReveal { .. } => RunState::MagicMapReveal { row: 0 },
        _ => RunState::Ticking,
    }
}

/// How an item menu's answer moves the game: cancel goes back to the
/// player, no answer waits, and a choice does `chosen(item)` and runs the
/// turn.
pub open spec fn item_menu_step(
    s: TickState,
    result: ItemMenuResult,
    item: Option<EntityId>,
    chosen: spec_fn(EntityId) -> TickAction,
) -> TickOutcome {
    match result {
        ItemMenuResult::Cancel => step(s, RunState::AwaitingInput, TickAction::Nothing),
        ItemMenuResult::NoResponse => stay(s),
        ItemMenuResult::Selected => step(s, RunState::Ticking, chosen(item->0)),
    }
}

/// What one frame does in state `s` on event `e`. An event that does not
/// belong to the state changes nothing.
pub open spec fn tick_outcome(s: TickState, e: TickEvent) -> TickOutcome {
    match s.run {
        RunState::PreRun => step(s, RunState::AwaitingInput, TickAction::RunSystems),
        RunState::AwaitingInput => match e {
            TickEvent::PlayerInput { next } => if next != RunState::AwaitingInput {
                step(s, next, TickAction::RecordTurn)
            } else {
                stay(s)
            },
            _ => stay(s),
        },
        RunState::Ticking => match e {
            TickEvent::SystemsRan { resource } => if after_round(resource) == RunState::AwaitingInput {
                step(s, RunState::AwaitingInput, TickAction::EndTurnTargeting)
            } else {
                step(s, after_round(resource), TickAction::Nothing)
            },
            _ => stay(s),
        },
        RunState::ShowDropItem => match e {
            TickEvent::ItemMenu { result, item } => item_menu_step(s, result, item, |i: EntityId| TickAction::Drop { item: i }),
            _ => stay(s),
        },
        RunState::ShowRemoveItem => match e {
            TickEvent::ItemMenu { result, item } => item_menu_step(s, result, item, |i: EntityId| TickAction::Remove { item: i }),
            _ => stay(s),
        },
        RunState::ShowRemoveCurse => match e {
            TickEvent::ItemMenu { result, item } => item_menu_step(s, result, item, |i: EntityId| TickAction::RemoveCurse { item: i }),
            _ => stay(s),
        },
        RunState::ShowIdentify => match e {
            TickEvent::ItemMenu { result, item } => item_menu_step(s, result, item, |i: EntityId| TickAction::Identify { item: i }),
            _ => stay(s),
        },
        RunState::ShowInventory => match e {
            TickEvent::Inventory { result, item, range } => match result {
                ItemMenuResult::Cancel => step(s, RunState::AwaitingInput, TickAction::Nothing),
                ItemMenuResult::NoResponse => stay(s),
                ItemMenuResult::Selected => match range {
                    Some(r) => step(s, RunState::ShowTargeting { range: r, item: item->0 }, TickAction::Nothing),
                    None => step(s, RunState::Ticking, TickAction::Use { item: item->0, target: None }),
                },
            },
            _ => stay(s),
        },
        RunState::ShowTargeting { range, item } => match e {
            TickEvent::Target { result, target, is_spell } => match result {
                ItemMenuResult::Cancel => step(s, RunState::AwaitingInput, TickAction::Nothing),
                ItemMenuResult::NoResponse => stay(s),
                ItemMenuResult::Selected => if is_spell {
                    step(s, RunState::Ticking, TickAction::Cast { spell: item, target })
                } else {
                    step(s, RunState::Ticking, TickAction::Use { item, target })
                },
            },
            _ => stay(s),
        },
        RunState::MainMenu { .. } => match e {
            TickEvent::MainMenu { result } => match result {
                MainMenuResult::NoSelection { highlighted } => step(
                    s,
                    RunState::MainMenu { menu_selection: highlighted },
                    TickAction::Nothing,
                ),
                MainMenuResult::Selected { highlighted } => match highlighted {
                    MainMenuSelection::NewGame => step(s, RunState::PreRun, TickAction::Nothing),
                    MainMenuSelection::LoadGame => step(s, RunState::AwaitingInput, TickAction::LoadGame),
                    MainMenuSelection::Quit => stay(s).action_set(TickAction::Quit),
                },
            },
            _ => stay(s),
        },
        RunState::SaveGame => step(
            s,
            RunState::MainMenu { menu_selection: MainMenuSelection::Quit },
            TickAction::SaveGame,
        ),
        RunState::NextLevel => step(s, RunState::PreRun, TickAction::GotoLevel { offset: 1 }),
        RunState::PreviousLevel => via_mapgen(TickAction::GotoLevel { offset: -1i32 }),
        RunState::GameOver => match e {
            TickEvent::GameOver { result: GameOverResult::QuitToMenu } => step(
                s,
                RunState::MainMenu { menu_selection: MainMenuSelection::NewGame },
                TickAction::GameOverCleanup,
            ),
            _ => stay(s),
        },
        RunState::MagicMapReveal { row } => match e {
            TickEvent::MapHeight { height } => if row == height - 1 {
                step(s, RunState::Ticking, TickAction::RevealRow { row })
            } else {
                step(s, RunState::MagicMapReveal { row: (row + 1) as i32 }, TickAction::RevealRow { row })
            },
            _ => stay(s),
        },
        RunState::MapGeneration => step(s, s.mapgen_next->0, TickAction::Nothing),
        RunState::ShowCheatMenu => match e {
            TickEvent::Cheat { result } => match result {
                CheatMenuResult::Cancel => step(s, RunState::AwaitingInput, TickAction::Nothing),
                CheatMenuResult::NoResponse => stay(s),
                CheatMenuResult::TeleportToExit => via_mapgen(TickAction::GotoLevel { offset: 1 }),
                CheatMenuResult::MagicMapper => stay(s).action_set(TickAction::RevealMap),
                CheatMenuResult::Heal => step(s, RunState::AwaitingInput, TickAction::HealPlayer),
                CheatMenuResult::GodMode => step(s, RunState::AwaitingInput, TickAction::GodMode),
                CheatMenuResult::GetRich => step(s, RunState::AwaitingInput, TickAction::GetRich),
            },
            _ => stay(s),
        },
        RunState::ShowVendor { vendor, mode } => match e {
            TickEvent::Vendor { result, line } => match result {
                VendorResult::Cancel => step(s, RunState::AwaitingInput, TickAction::Nothing),
                VendorResult::NoResponse => stay(s),
                VendorResult::Sell => stay(s).action_set(TickAction::Sell { line: line->0 }),
                VendorResult::Buy => stay(s).action_set(TickAction::Buy { line: line->0 }),
                VendorResult::BuyMode => step(s, RunState::ShowVendor { vendor, mode: VendorMode::Buy }, TickAction::Nothing),
                VendorResult::SellMode => step(s, RunState::ShowVendor { vendor, mode: VendorMode::Sell }, TickAction::Nothing),
            },
            _ => stay(s),
        },
        RunState::TownPortal => match e {
            TickEvent::Depth { depth } => via_mapgen(TickAction::TownPortal { offset: (0 - (depth - 1)) as i32 }),
            _ => stay(s),
        },
        RunState::TeleportingToOtherLevel { x, y, depth } => via_mapgen(
            TickAction::Teleport { offset: (depth - 1) as i32, x, y },
        ),
    }
}

impl TickOutcome {
    /// The same outcome with `action` to do.
    pub open spec fn action_set(self, action: TickAction) -> TickOutcome {
        TickOutcome { state: self.state, action }
    }
}

/// Moves to `run`, doing `action`.
fn go(s: TickState, run: RunState, action: TickAction) -> (o: TickOutcome)
    ensures
        o == step(s, run, action),
{
    TickOutcome { state: TickState { run, mapgen_next: s.mapgen_next }, action }
}

/// Does `action` and stays.
fn act(s: TickState, action: TickAction) -> (o: TickOutcome)
    ensures
        o == stay(s).action_set(action),
{
    TickOutcome { state: s, action }
}

/// Does `action`, then generates a map and moves to PreRun.
fn through_mapgen(action: TickAction) -> (o: TickOutcome)
    ensures
        o == via_mapgen(action),
{
    TickOutcome { state: TickState { run: RunState::MapGeneration, mapgen_next: Some(RunState::PreRun) }, action }
}

/// The states a round of turns hands over unchanged: the player's turn, a
/// town portal, the remove-curse and identify menus, and a teleport.
pub open spec fn stops_rounds(resource: RunState) -> bool {
    ||| resource is AwaitingInput
    ||| resource is TownPortal
    ||| resource is ShowRemoveCurse
    ||| resource is ShowIdentify
    ||| resource is TeleportingToOtherLevel
}

/// While ticking, a round that leaves one of the stopping states moves the
/// game into that state (the player's turn also ends its targeting); a map
/// reveal starts from the first row; anything else runs another round.
pub proof fn lemma_round_ends_in_its_state(s: TickState, resource: RunState)
    requires
        s.run == RunState::Ticking,
    ensures
        stops_rounds(resource) ==> tick_outcome(s, TickEvent::SystemsRan { resource }).state == (TickState {
            run: resource,
            mapgen_next: s.mapgen_next,
        }),
        resource is AwaitingInput ==> tick_outcome(s, TickEvent::SystemsRan { resource }).action
            == TickAction::EndTurnTargeting,
        stops_rounds(resource) && !(resource is AwaitingInput) ==> tick_outcome(
            s,
            TickEvent::SystemsRan { resource },
        ).action == TickAction::Nothing,
        resource is MagicMapReveal ==> tick_outcome(s, TickEvent::SystemsRan { resource }).state.run
            == (RunState::MagicMapReveal { row: 0 }),
        !stops_rounds(resource) && !(resource is MagicMapReveal) ==> tick_outcome(
            s,
            TickEvent::SystemsRan { resource },
        ).state.run == RunState::Ticking,
{
}

/// Returns the state a round of turns leads to.
pub fn next_after_round(resource: RunState) -> (next: RunState)
    ensures
        next == after_round(resource),
        stops_rounds(resource) ==> next == resource,
        resource is MagicMapReveal ==> next == (RunState::MagicMapReveal { row: 0 }),
        !stops_rounds(resource) && !(resource is MagicMapReveal) ==> next == RunState::Ticking,
{
    match resource {
        RunState::AwaitingInput => RunState::AwaitingInput,
        RunState::TownPortal => RunState::TownPortal,
        RunState::ShowRemoveCurse => RunState::ShowRemoveCurse,
        RunState::ShowIdentify => RunState::ShowIdentify,
        RunState::TeleportingToOtherLevel { x, y, depth } => RunState::TeleportingToOtherLevel { x, y, depth },
        RunState::MagicMapReveal { .. } => RunState::MagicMapReveal { row: 0 },
        _ => RunState::Ticking,
    }
}

/// Returns what one frame does in state `s` on event `e`: the next state,
/// and the work the game must do for it.
pub fn tick(s: TickState, e: TickEvent) -> (o: TickOutcome)
    requires
        tick_defined(s, e),
    ensures
        o == tick_outcome(s, e),
{
    match s.run {
        RunState::PreRun => go(s, RunState::AwaitingInput, TickAction::RunSystems),
        RunState::AwaitingInput => match e {
            TickEvent::PlayerInput { next } => {
                if next != RunState::AwaitingInput {
                    go(s, next, TickAction::RecordTurn)
                } else {
                    act(s, TickAction::Nothing)
                }
            },
            _ => act(s, TickAction::Nothing),
        },
        RunState::Ticking => match e {
            TickEvent::SystemsRan { resource } => {
                let next = next_after_round(resource);
                if next == RunState::AwaitingInput {
                    go(s, RunState::AwaitingInput, TickAction::EndTurnTargeting)
                } else {
                    go(s, next, TickAction::Nothing)
                }
            },
            _ => act(s, TickAction::Nothing),
        },
        RunState::ShowDropItem => match e {
            TickEvent::ItemMenu { result, item } => match result {
                ItemMenuResult::Cancel => go(s, RunState::AwaitingInput, TickAction::Nothing),
                ItemMenuResult::NoResponse => act(s, TickAction::Nothing),
                ItemMenuResult::Selected => go(s, RunState::Ticking, TickAction::Drop { item: item.unwrap() }),
            },
            _ => act(s, TickAction::Nothing),
        },
        RunState::ShowRemoveItem => match e {
            TickEvent::ItemMenu { result, item } => match result {
                ItemMenuResult::Cancel => go(s, RunState::AwaitingInput, TickAction::Nothing),
                ItemMenuResult::NoResponse => act(s, TickAction::Nothing),
                ItemMenuResult::Selected => go(s, RunState::Ticking, TickAction::Remove { item: item.unwrap() }),
            },
            _ => act(s, TickAction::Nothing),
        },
        RunState::ShowRemoveCurse => match e {
            TickEvent::ItemMenu { result, item } => match result {
                ItemMenuResult::Cancel => go(s, RunState::AwaitingInput, TickAction::Nothing),
                ItemMenuResult::NoResponse => act(s, TickAction::Nothing),
                ItemMenuResult::Selected => go(s, RunState::Ticking, TickAction::RemoveCurse { item: item.unwrap() }),
            },
            _ => act(s, TickAction::Nothing),
        },
        RunState::ShowIdentify => match e {
            TickEvent::ItemMenu { result, item } => match result {
                ItemMenuResult::Cancel => go(s, RunState::AwaitingInput, TickAction::Nothing),
                ItemMenuResult::NoResponse => act(s, TickAction::Nothing),
                ItemMenuResult::Selected => go(s, RunState::Ticking, TickAction::Identify { item: item.unwrap() }),
            },
            _ => act(s, TickAction::Nothing),
        },
        RunState::ShowInventory => match e {
            TickEvent::Inventory { result, item, range } => match result {
                ItemMenuResult::Cancel => go(s, RunState::AwaitingInput, TickAction::Nothing),
                ItemMenuResult::NoResponse => act(s, TickAction::Nothing),
                ItemMenuResult::Selected => {
                    let chosen = item.unwrap();
                    match range {
                        Some(r) => go(s, RunState::ShowTargeting { range: r, item: chosen }, TickAction::Nothing),
                        None => go(s, RunState::Ticking, TickAction::Use { item: chosen, target: None }),
                    }
                },
            },
            _ => act(s, TickAction::Nothing),
        },
        RunState::ShowTargeting { range, item } => match e {
            TickEvent::Target { result, target, is_spell } => match result {
                ItemMenuResult::Cancel => go(s, RunState::AwaitingInput, TickAction::Nothing),
                ItemMenuResult::NoResponse => act(s, TickAction::Nothing),
                ItemMenuResult::Selected => {
                    if is_spell {
                        go(s, RunState::Ticking, TickAction::Cast { spell: item, target })
                    } else {
                        go(s, RunState::Ticking, TickAction::Use { item, target })
                    }
                },
            },
            _ => act(s, TickAction::Nothing),
        },
        RunState::MainMenu { .. } => match e {
            TickEvent::MainMenu { result } => match result {
                MainMenuResult::NoSelection { highlighted } => go(
                    s,
                    RunState::MainMenu { menu_selection: highlighted },
                    TickAction::Nothing,
                ),
                MainMenuResult::Selected { highlighted } => match highlighted {
                    MainMenuSelection::NewGame => go(s, RunState::PreRun, TickAction::Nothing),
                    MainMenuSelection::LoadGame => go(s, RunState::AwaitingInput, TickAction::LoadGame),
                    MainMenuSelection::Quit => act(s, TickAction::Quit),
                },
            },
            _ => act(s, TickAction::Nothing),
        },
        RunState::SaveGame => go(
            s,
            RunState::MainMenu { menu_selection: MainMenuSelection::Quit },
            TickAction::SaveGame,
        ),
        RunState::NextLevel => go(s, RunState::PreRun, TickAction::GotoLevel { offset: 1 }),
        RunState::PreviousLevel => through_mapgen(TickAction::GotoLevel { offset: -1 }),
        RunState::GameOver => match e {
            TickEvent::GameOver { result: GameOverResult::QuitToMenu } => go(
                s,
                RunState::MainMenu { menu_selection: MainMenuSelection::NewGame },
                TickAction::GameOverCleanup,
            ),
            _ => act(s, TickAction::Nothing),
        },
        RunState::MagicMapReveal { row } => match e {
            TickEvent::MapHeight { height } => {
                if row == height - 1 {
                    go(s, RunState::Ticking, TickAction::RevealRow { row })
                } else {
                    go(s, RunState::MagicMapReveal { row: row + 1 }, TickAction::RevealRow { row })
                }
            },
            _ => act(s, TickAction::Nothing),
        },
        RunState::MapGeneration => {
            let next = s.mapgen_next.unwrap();
            go(s, next, TickAction::Nothing)
        },
        RunState::ShowCheatMenu => match e {
            TickEvent::Cheat { result } => match result {
                CheatMenuResult::Cancel => go(s, RunState::AwaitingInput, TickAction::Nothing),
                CheatMenuResult::NoResponse => act(s, TickAction::Nothing),
                CheatMenuResult::TeleportToExit => through_mapgen(TickAction::GotoLevel { offset: 1 }),
                CheatMenuResult::MagicMapper => act(s, TickAction::RevealMap),
                CheatMenuResult::Heal => go(s, RunState::AwaitingInput, TickAction::HealPlayer),
                CheatMenuResult::GodMode => go(s, RunState::AwaitingInput, TickAction::GodMode),
                CheatMenuResult::GetRich => go(s, RunState::AwaitingInput, TickAction::GetRich),
            },
            _ => act(s, TickAction::Nothing),
        },
        RunState::ShowVendor { vendor, mode } => match e {
            TickEvent::Vendor { result, line } => match result {
                VendorResult::Cancel => go(s, RunState::AwaitingInput, TickAction::Nothing),
                VendorResult::NoResponse => act(s, TickAction::Nothing),
                VendorResult::Sell => act(s, TickAction::Sell { line: line.unwrap() }),
                VendorResult::Buy => act(s, TickAction::Buy { line: line.unwrap() }),
                VendorResult::BuyMode => go(s, RunState::buy_vendor(vendor), TickAction::Nothing),
                VendorResult::SellMode => go(s, RunState::sell_vendor(vendor), TickAction::Nothing),
            },
            _ => act(s, TickAction::Nothing),
        },
        RunState::TownPortal => match e {
            TickEvent::Depth { depth } => through_mapgen(TickAction::TownPortal { offset: 0 - (depth - 1) }),
            _ => act(s, TickAction::Nothing),
        },
        RunState::TeleportingToOtherLevel { x, y, depth } => through_mapgen(
            TickAction::Teleport { offset: depth - 1, x, y },
        ),
    }
}

/// Once map generation knows where to go, it always does: no frame
/// forgets it, so leaving map generation never fails.
pub proof fn lemma_mapgen_next_kept(s: TickState, e: TickEvent)
    requires
        s.mapgen_next is Some,
        tick_defined(s, e),
    ensures
        tick_outcome(s, e).state.mapgen_next is Some,
        tick_outcome(s, e).state.run == RunState::MapGeneration ==> tick_defined(tick_outcome(s, e).state, TickEvent::Nothing),
{
}

/// Choosing an item in a menu does that menu's work on it and runs the
/// turn; choosing one that needs aiming opens the targeting view instead.
pub proof fn lemma_menu_choice_runs_turn(s: TickState, item: EntityId, range: Option<i32>)
    ensures
        s.run is ShowDropItem ==> tick_outcome(s, TickEvent::ItemMenu { result: ItemMenuResult::Selected, item: Some(item) })
            == (TickOutcome { state: TickState { run: RunState::Ticking, mapgen_next: s.mapgen_next }, action: TickAction::Drop { item } }),
        s.run is ShowRemoveItem ==> tick_outcome(s, TickEvent::ItemMenu { result: ItemMenuResult::Selected, item: Some(item) })
            == (TickOutcome { state: TickState { run: RunState::Ticking, mapgen_next: s.mapgen_next }, action: TickAction::Remove { item } }),
        s.run is ShowRemoveCurse ==> tick_outcome(s, TickEvent::ItemMenu { result: ItemMenuResult::Selected, item: Some(item) })
            == (TickOutcome {
            state: TickState { run: RunState::Ticking, mapgen_next: s.mapgen_next },
            action: TickAction::RemoveCurse { item },
        }),
        s.run is ShowIdentify ==> tick_outcome(s, TickEvent::ItemMenu { result: ItemMenuResult::Selected, item: Some(item) })
            == (TickOutcome { state: TickState { run: RunState::Ticking, mapgen_next: s.mapgen_next }, action: TickAction::Identify { item } }),
        s.run is ShowInventory && range is None ==> tick_outcome(
            s,
            TickEvent::Inventory { result: ItemMenuResult::Selected, item: Some(item), range },
        ) == (TickOutcome {
            state: TickState { run: RunState::Ticking, mapgen_next: s.mapgen_next },
            action: TickAction::Use { item, target: None },
        }),
        s.run is ShowInventory && range is Some ==> tick_outcome(
            s,
            TickEvent::Inventory { result: ItemMenuResult::Selected, item: Some(item), range },
        ) == (TickOutcome {
            state: TickState { run: RunState::ShowTargeting { range: range->0, item }, mapgen_next: s.mapgen_next },
            action: TickAction::Nothing,
        }),
{
}

/// The player's move ends the wait for input and counts a turn; no move
/// keeps waiting. Starting a level runs the systems once and waits.
pub proof fn lemma_player_input_counts_turn(s: TickState, next: RunState)
    ensures
        s.run is AwaitingInput && next != RunState::AwaitingInput ==> tick_outcome(s, TickEvent::PlayerInput { next })
            == (TickOutcome { state: TickState { run: next, mapgen_next: s.mapgen_next }, action: TickAction::RecordTurn }),
        s.run is AwaitingInput && next == RunState::AwaitingInput ==> tick_outcome(s, TickEvent::PlayerInput { next })
            == (TickOutcome { state: s, action: TickAction::Nothing }),
        s.run is PreRun ==> tick_outcome(s, TickEvent::PlayerInput { next }) == (TickOutcome {
            state: TickState { run: RunState::AwaitingInput, mapgen_next: s.mapgen_next },
            action: TickAction::RunSystems,
        }),
{
}

/// Cancelling any menu hands the turn back to the player and does
/// nothing else; a menu with no answer yet leaves everything as it is.
pub proof fn lemma_menus_cancel_to_player(s: TickState, item: Option<EntityId>, range: Option<i32>, target: Option<Point>, is_spell: bool, line: Option<usize>)
    ensures
        (s.run is ShowDropItem || s.run is ShowRemoveItem || s.run is ShowRemoveCurse || s.run is ShowIdentify) ==> {
            &&& tick_outcome(s, TickEvent::ItemMenu { result: ItemMenuResult::Cancel, item }) == step(s, RunState::AwaitingInput, TickAction::Nothing)
            &&& tick_outcome(s, TickEvent::ItemMenu { result: ItemMenuResult::NoResponse, item }) == stay(s)
        },
        s.run is ShowInventory ==> {
            &&& tick_outcome(s, TickEvent::Inventory { result: ItemMenuResult::Cancel, item, range }) == step(s, RunState::AwaitingInput, TickAction::Nothing)
            &&& tick_outcome(s, TickEvent::Inventory { result: ItemMenuResult::NoResponse, item, range }) == stay(s)
        },
        s.run is ShowTargeting ==> {
            &&& tick_outcome(s, TickEvent::Target { result: ItemMenuResult::Cancel, target, is_spell }) == step(s, RunState::AwaitingInput, TickAction::Nothing)
            &&& tick_outcome(s, TickEvent::Target { result: ItemMenuResult::NoResponse, target, is_spell }) == stay(s)
        },
        s.run is ShowCheatMenu ==> {
            &&& tick_outcome(s, TickEvent::Cheat { result: CheatMenuResult::Cancel }) == step(s, RunState::AwaitingInput, TickAction::Nothing)
            &&& tick_outcome(s, TickEvent::Cheat { result: CheatMenuResult::NoResponse }) == stay(s)
        },
        s.run is ShowVendor ==> {
            &&& tick_outcome(s, TickEvent::Vendor { result: VendorResult::Cancel, line }) == step(s, RunState::AwaitingInput, TickAction::Nothing)
            &&& tick_outcome(s, TickEvent::Vendor { result: VendorResult::NoResponse, line }) == stay(s)
        },
{
}

/// The state after `n` frames of the map reveal on a map `height` rows
/// high.
pub open spec fn reveal_frames(s: TickState, height: i32, n: nat) -> TickState
    decreases n,
{
    if n == 0 {
        s
    } else {
        reveal_frames(tick_outcome(s, TickEvent::MapHeight { height }).state, height, (n - 1) as nat)
    }
}

/// The magic map reveals one row a frame, from `row` down to the last, and
/// then play goes on: after as many frames as rows are left, the game is
/// ticking again.
pub proof fn lemma_reveal_row_by_row(row: i32, height: i32, next: Option<RunState>)
    requires
        0 <= row < height,
    ensures
        tick_outcome(
            TickState { run: RunState::MagicMapReveal { row }, mapgen_next: next },
            TickEvent::MapHeight { height },
        ).action == (TickAction::RevealRow { row }),
        reveal_frames(
            TickState { run: RunState::MagicMapReveal { row }, mapgen_next: next },
            height,
            (height - row) as nat,
        ) == (TickState { run: RunState::Ticking, mapgen_next: next }),
    decreases height - row,
{
    let s = TickState { run: RunState::MagicMapReveal { row }, mapgen_next: next };
    let after = tick_outcome(s, TickEvent::MapHeight { height }).state;
    if row == height - 1 {
        assert(reveal_frames(after, height, 0) == after);
    } else {
        lemma_reveal_row_by_row((row + 1) as i32, height, next);
        assert(after == TickState { run: RunState::MagicMapReveal { row: (row + 1) as i32 }, mapgen_next: next });
    }
}

/// Switching the vendor screen to the other mode and back returns to the
/// same vendor in the same mode.
pub proof fn lemma_vendor_mode_round_trip(s: TickState, vendor: EntityId, mode: VendorMode)
    requires
        s.run == (RunState::ShowVendor { vendor, mode }),
    ensures
        ({
            let (there, back) = match mode {
                VendorMode::Sell => (VendorResult::BuyMode, VendorResult::SellMode),
                VendorMode::Buy => (VendorResult::SellMode, VendorResult::BuyMode),
            };
            let mid = tick_outcome(s, TickEvent::Vendor { result: there, line: None }).state;
            &&& mid.run is ShowVendor
            &&& tick_outcome(mid, TickEvent::Vendor { result: back, line: None }).state == s
        }),
{
}

} // verus!
