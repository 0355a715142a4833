use rusty_roguelike::components::Point;
use rusty_roguelike::gui::menu::cheat::CheatMenuResult;
use rusty_roguelike::gui::menu::game_over::GameOverResult;
use rusty_roguelike::gui::menu::main_menu::{MainMenuResult, MainMenuSelection};
use rusty_roguelike::gui::menu::vendor::VendorResult;
use rusty_roguelike::gui::menu::ItemMenuResult;
use rusty_roguelike::run_state::{
    draws_map, next_after_round, tick, RunState, TickAction, TickEvent, TickOutcome, TickState, VendorMode,
};

fn at(run: RunState) -> TickState {
    TickState { run, mapgen_next: Some(RunState::PreRun) }
}

fn moved(run: RunState, action: TickAction) -> TickOutcome {
    TickOutcome { state: at(run), action }
}

#[test]
fn vendor_constructors() {
    assert_eq!(RunState::buy_vendor(5), RunState::ShowVendor { vendor: 5, mode: VendorMode::Buy });
    assert_eq!(RunState::sell_vendor(5), RunState::ShowVendor { vendor: 5, mode: VendorMode::Sell });
}

#[test]
fn map_hidden_on_menu_and_game_over() {
    assert!(!draws_map(RunState::MainMenu { menu_selection: MainMenuSelection::NewGame }));
    assert!(!draws_map(RunState::GameOver));
    assert!(draws_map(RunState::AwaitingInput));
    assert!(draws_map(RunState::ShowCheatMenu));
}

#[test]
fn prerun_runs_systems_then_waits() {
    assert_eq!(tick(at(RunState::PreRun), TickEvent::Nothing), moved(RunState::AwaitingInput, TickAction::RunSystems));
}

#[test]
fn player_input_counts_a_turn() {
    assert_eq!(
        tick(at(RunState::AwaitingInput), TickEvent::PlayerInput { next: RunState::Ticking }),
        moved(RunState::Ticking, TickAction::RecordTurn)
    );
    assert_eq!(
        tick(at(RunState::AwaitingInput), TickEvent::PlayerInput { next: RunState::AwaitingInput }),
        moved(RunState::AwaitingInput, TickAction::Nothing)
    );
}

#[test]
fn ticking_stops_at_the_players_turn() {
    assert_eq!(
        tick(at(RunState::Ticking), TickEvent::SystemsRan { resource: RunState::AwaitingInput }),
        moved(RunState::AwaitingInput, TickAction::EndTurnTargeting)
    );
    assert_eq!(
        tick(at(RunState::Ticking), TickEvent::SystemsRan { resource: RunState::Ticking }),
        moved(RunState::Ticking, TickAction::Nothing)
    );
    assert_eq!(next_after_round(RunState::MagicMapReveal { row: 9 }), RunState::MagicMapReveal { row: 0 });
    assert_eq!(next_after_round(RunState::ShowInventory), RunState::Ticking);
    assert_eq!(next_after_round(RunState::TownPortal), RunState::TownPortal);
}

#[test]
fn item_menus_cancel_wait_or_act() {
    let drop = at(RunState::ShowDropItem);
    assert_eq!(
        tick(drop, TickEvent::ItemMenu { result: ItemMenuResult::Cancel, item: None }),
        moved(RunState::AwaitingInput, TickAction::Nothing)
    );
    assert_eq!(tick(drop, TickEvent::ItemMenu { result: ItemMenuResult::NoResponse, item: None }), moved(RunState::ShowDropItem, TickAction::Nothing));
    assert_eq!(
        tick(drop, TickEvent::ItemMenu { result: ItemMenuResult::Selected, item: Some(4) }),
        moved(RunState::Ticking, TickAction::Drop { item: 4 })
    );
    assert_eq!(
        tick(at(RunState::ShowRemoveCurse), TickEvent::ItemMenu { result: ItemMenuResult::Selected, item: Some(9) }),
        moved(RunState::Ticking, TickAction::RemoveCurse { item: 9 })
    );
}

#[test]
fn inventory_aims_ranged_items() {
    let inv = at(RunState::ShowInventory);
    assert_eq!(
        tick(inv, TickEvent::Inventory { result: ItemMenuResult::Selected, item: Some(3), range: Some(6) }),
        moved(RunState::ShowTargeting { range: 6, item: 3 }, TickAction::Nothing)
    );
    assert_eq!(
        tick(inv, TickEvent::Inventory { result: ItemMenuResult::Selected, item: Some(3), range: None }),
        moved(RunState::Ticking, TickAction::Use { item: 3, target: None })
    );
    let aim = at(RunState::ShowTargeting { range: 6, item: 3 });
    let p = Some(Point { x: 1, y: 2 });
    assert_eq!(
        tick(aim, TickEvent::Target { result: ItemMenuResult::Selected, target: p, is_spell: true }),
        moved(RunState::Ticking, TickAction::Cast { spell: 3, target: p })
    );
    assert_eq!(
        tick(aim, TickEvent::Target { result: ItemMenuResult::Selected, target: p, is_spell: false }),
        moved(RunState::Ticking, TickAction::Use { item: 3, target: p })
    );
}

#[test]
fn main_menu_choices() {
    let menu = at(RunState::MainMenu { menu_selection: MainMenuSelection::NewGame });
    assert_eq!(
        tick(menu, TickEvent::MainMenu { result: MainMenuResult::Selected { highlighted: MainMenuSelection::NewGame } }),
        moved(RunState::PreRun, TickAction::Nothing)
    );
    assert_eq!(
        tick(menu, TickEvent::MainMenu { result: MainMenuResult::Selected { highlighted: MainMenuSelection::LoadGame } }),
        moved(RunState::AwaitingInput, TickAction::LoadGame)
    );
    assert_eq!(
        tick(menu, TickEvent::MainMenu { result: MainMenuResult::Selected { highlighted: MainMenuSelection::Quit } }).action,
        TickAction::Quit
    );
    assert_eq!(
        tick(menu, TickEvent::MainMenu { result: MainMenuResult::NoSelection { highlighted: MainMenuSelection::Quit } }),
        moved(RunState::MainMenu { menu_selection: MainMenuSelection::Quit }, TickAction::Nothing)
    );
}

#[test]
fn level_changes() {
    assert_eq!(
        tick(at(RunState::SaveGame), TickEvent::Nothing),
        moved(RunState::MainMenu { menu_selection: MainMenuSelection::Quit }, TickAction::SaveGame)
    );
    assert_eq!(tick(at(RunState::NextLevel), TickEvent::Nothing), moved(RunState::PreRun, TickAction::GotoLevel { offset: 1 }));
    let none_next = TickState { run: RunState::PreviousLevel, mapgen_next: None };
    assert_eq!(
        tick(none_next, TickEvent::Nothing),
        TickOutcome {
            state: TickState { run: RunState::MapGeneration, mapgen_next: Some(RunState::PreRun) },
            action: TickAction::GotoLevel { offset: -1 },
        }
    );
    assert_eq!(
        tick(at(RunState::TownPortal), TickEvent::Depth { depth: 5 }),
        TickOutcome {
            state: TickState { run: RunState::MapGeneration, mapgen_next: Some(RunState::PreRun) },
            action: TickAction::TownPortal { offset: -4 },
        }
    );
    assert_eq!(
        tick(at(RunState::TeleportingToOtherLevel { x: 3, y: 4, depth: 2 }), TickEvent::Nothing).action,
        TickAction::Teleport { offset: 1, x: 3, y: 4 }
    );
    let gen = TickState { run: RunState::MapGeneration, mapgen_next: Some(RunState::AwaitingInput) };
    assert_eq!(tick(gen, TickEvent::Nothing).state.run, RunState::AwaitingInput);
}

#[test]
fn game_over_returns_to_new_game_menu() {
    assert_eq!(
        tick(at(RunState::GameOver), TickEvent::GameOver { result: GameOverResult::QuitToMenu }),
        moved(RunState::MainMenu { menu_selection: MainMenuSelection::NewGame }, TickAction::GameOverCleanup)
    );
    assert_eq!(
        tick(at(RunState::GameOver), TickEvent::GameOver { result: GameOverResult::NoSelection }),
        moved(RunState::GameOver, TickAction::Nothing)
    );
}

#[test]
fn magic_map_reveals_each_row_then_ticks() {
    let height = 4;
    let mut state = at(RunState::MagicMapReveal { row: 0 });
    let mut revealed = Vec::new();
    for _ in 0..height {
        let out = tick(state, TickEvent::MapHeight { height });
        if let TickAction::RevealRow { row } = out.action {
            revealed.push(row);
        }
        state = out.state;
    }
    assert_eq!(revealed, vec![0, 1, 2, 3]);
    assert_eq!(state, at(RunState::Ticking));
}

#[test]
fn cheat_menu_outcomes() {
    let cheat = at(RunState::ShowCheatMenu);
    assert_eq!(tick(cheat, TickEvent::Cheat { result: CheatMenuResult::MagicMapper }), moved(RunState::ShowCheatMenu, TickAction::RevealMap));
    assert_eq!(tick(cheat, TickEvent::Cheat { result: CheatMenuResult::Heal }), moved(RunState::AwaitingInput, TickAction::HealPlayer));
    assert_eq!(tick(cheat, TickEvent::Cheat { result: CheatMenuResult::GetRich }), moved(RunState::AwaitingInput, TickAction::GetRich));
    assert_eq!(tick(cheat, TickEvent::Cheat { result: CheatMenuResult::Cancel }), moved(RunState::AwaitingInput, TickAction::Nothing));
    assert_eq!(
        tick(cheat, TickEvent::Cheat { result: CheatMenuResult::TeleportToExit }),
        TickOutcome {
            state: TickState { run: RunState::MapGeneration, mapgen_next: Some(RunState::PreRun) },
            action: TickAction::GotoLevel { offset: 1 },
        }
    );
}

#[test]
fn vendor_screen_switches_modes_and_back() {
    let sell = at(RunState::ShowVendor { vendor: 8, mode: VendorMode::Sell });
    let buy = tick(sell, TickEvent::Vendor { result: VendorResult::BuyMode, line: None }).state;
    assert_eq!(buy.run, RunState::ShowVendor { vendor: 8, mode: VendorMode::Buy });
    assert_eq!(tick(buy, TickEvent::Vendor { result: VendorResult::SellMode, line: None }).state, sell);
    assert_eq!(tick(sell, TickEvent::Vendor { result: VendorResult::Sell, line: Some(2) }), moved(sell.run, TickAction::Sell { line: 2 }));
    assert_eq!(tick(buy, TickEvent::Vendor { result: VendorResult::Buy, line: Some(0) }), moved(buy.run, TickAction::Buy { line: 0 }));
}

#[test]
fn mismatched_event_changes_nothing() {
    let s = at(RunState::ShowInventory);
    assert_eq!(tick(s, TickEvent::Nothing), moved(RunState::ShowInventory, TickAction::Nothing));
}
