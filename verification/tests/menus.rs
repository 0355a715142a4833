use rusty_roguelike::gamelog::events::{record_event, EventCounts};
use rusty_roguelike::gui::menu::cheat::{show_cheat_mode, CheatMenuResult};
use rusty_roguelike::gui::menu::game_over::{game_over, game_over_stats, GameOverResult};
use rusty_roguelike::gui::menu::identify::identify_menu;
use rusty_roguelike::gui::menu::main_menu::{cycle_hovering, main_menu, MainMenuResult, MainMenuSelection};
use rusty_roguelike::gui::menu::ranged_target::{ranged_target, target_cells};
use rusty_roguelike::gui::menu::remove_curse::remove_curse_menu;
use rusty_roguelike::gui::menu::vendor::{show_vendor_menu, VendorResult};
use rusty_roguelike::gui::menu::{
    drop_item_menu, item_menu_input, menu_top, remove_item_menu, show_inventory, ItemMenuResult, MenuItem, MenuKey,
};
use rusty_roguelike::components::Point;
use rusty_roguelike::map::dungeon::MasterDungeonMap;
use rusty_roguelike::run_state::VendorMode;

fn item(id: u32, backpack: Option<u32>, equipped: Option<u32>, name: &str, obfuscated: bool, cursed: bool) -> MenuItem {
    MenuItem {
        id,
        backpack_owner: backpack,
        equipped_owner: equipped,
        name: Some(name.to_string()),
        obfuscated,
        cursed,
    }
}

#[test]
fn item_menu_selects_listed_letter() {
    let items = vec![10, 11, 12];
    assert_eq!(item_menu_input(Some(MenuKey::Letter { index: 1 }), &items, 3), (ItemMenuResult::Selected, Some(11)));
    assert_eq!(item_menu_input(Some(MenuKey::Letter { index: 3 }), &items, 3), (ItemMenuResult::NoResponse, None));
    assert_eq!(item_menu_input(Some(MenuKey::Letter { index: 2 }), &items, 2), (ItemMenuResult::NoResponse, None));
    assert_eq!(item_menu_input(Some(MenuKey::Escape), &items, 3), (ItemMenuResult::Cancel, None));
    assert_eq!(item_menu_input(Some(MenuKey::Return), &items, 3), (ItemMenuResult::NoResponse, None));
    assert_eq!(item_menu_input(None, &items, 3), (ItemMenuResult::NoResponse, None));
}

#[test]
fn menu_is_centred_on_row_25() {
    assert_eq!(menu_top(0), 25);
    assert_eq!(menu_top(5), 23);
    assert_eq!(menu_top(51), 0);
}

#[test]
fn main_menu_cycles_through_entries() {
    assert_eq!(cycle_hovering(MainMenuSelection::NewGame, true, true), MainMenuSelection::Quit);
    assert_eq!(cycle_hovering(MainMenuSelection::Quit, true, true), MainMenuSelection::LoadGame);
    assert_eq!(cycle_hovering(MainMenuSelection::Quit, true, false), MainMenuSelection::NewGame);
    assert_eq!(cycle_hovering(MainMenuSelection::NewGame, false, true), MainMenuSelection::LoadGame);
    assert_eq!(cycle_hovering(MainMenuSelection::NewGame, false, false), MainMenuSelection::Quit);
    assert_eq!(cycle_hovering(MainMenuSelection::LoadGame, false, false), MainMenuSelection::Quit);
}

#[test]
fn main_menu_up_then_down_returns() {
    for save in [true, false] {
        for cur in [MainMenuSelection::NewGame, MainMenuSelection::LoadGame, MainMenuSelection::Quit] {
            if !save && cur == MainMenuSelection::LoadGame {
                continue;
            }
            assert_eq!(cycle_hovering(cycle_hovering(cur, true, save), false, save), cur);
            assert_eq!(cycle_hovering(cycle_hovering(cur, false, save), true, save), cur);
        }
    }
}

#[test]
fn main_menu_without_save_never_highlights_load() {
    for cur in [MainMenuSelection::NewGame, MainMenuSelection::LoadGame, MainMenuSelection::Quit] {
        assert_ne!(cycle_hovering(cur, true, false), MainMenuSelection::LoadGame);
        assert_ne!(cycle_hovering(cur, false, false), MainMenuSelection::LoadGame);
    }
}

#[test]
fn main_menu_keys() {
    let cur = Some(MainMenuSelection::NewGame);
    assert_eq!(
        main_menu(cur, Some(MenuKey::Escape), true),
        MainMenuResult::NoSelection { highlighted: MainMenuSelection::Quit }
    );
    assert_eq!(
        main_menu(cur, Some(MenuKey::Down), true),
        MainMenuResult::NoSelection { highlighted: MainMenuSelection::LoadGame }
    );
    assert_eq!(
        main_menu(cur, Some(MenuKey::Return), true),
        MainMenuResult::Selected { highlighted: MainMenuSelection::NewGame }
    );
    assert_eq!(
        main_menu(cur, Some(MenuKey::Letter { index: 0 }), true),
        MainMenuResult::NoSelection { highlighted: MainMenuSelection::NewGame }
    );
    assert_eq!(
        main_menu(None, Some(MenuKey::Return), true),
        MainMenuResult::NoSelection { highlighted: MainMenuSelection::NewGame }
    );
}

#[test]
fn cheat_menu_letters() {
    assert_eq!(show_cheat_mode(Some(MenuKey::Letter { index: 19 })), CheatMenuResult::TeleportToExit);
    assert_eq!(show_cheat_mode(Some(MenuKey::Letter { index: 12 })), CheatMenuResult::MagicMapper);
    assert_eq!(show_cheat_mode(Some(MenuKey::Letter { index: 7 })), CheatMenuResult::Heal);
    assert_eq!(show_cheat_mode(Some(MenuKey::Letter { index: 6 })), CheatMenuResult::GodMode);
    assert_eq!(show_cheat_mode(Some(MenuKey::Letter { index: 11 })), CheatMenuResult::GetRich);
    assert_eq!(show_cheat_mode(Some(MenuKey::Letter { index: 0 })), CheatMenuResult::NoResponse);
    assert_eq!(show_cheat_mode(Some(MenuKey::Escape)), CheatMenuResult::Cancel);
    assert_eq!(show_cheat_mode(None), CheatMenuResult::NoResponse);
}

#[test]
fn vendor_menu_answers() {
    assert_eq!(show_vendor_menu(VendorMode::Sell, Some(MenuKey::Space), 3), (VendorResult::BuyMode, None));
    assert_eq!(show_vendor_menu(VendorMode::Buy, Some(MenuKey::Space), 3), (VendorResult::SellMode, None));
    assert_eq!(show_vendor_menu(VendorMode::Buy, Some(MenuKey::Escape), 3), (VendorResult::Cancel, None));
    assert_eq!(show_vendor_menu(VendorMode::Sell, Some(MenuKey::Letter { index: 2 }), 3), (VendorResult::Sell, Some(2)));
    assert_eq!(show_vendor_menu(VendorMode::Buy, Some(MenuKey::Letter { index: 0 }), 3), (VendorResult::Buy, Some(0)));
    assert_eq!(show_vendor_menu(VendorMode::Buy, Some(MenuKey::Letter { index: 3 }), 3), (VendorResult::NoResponse, None));
    assert_eq!(show_vendor_menu(VendorMode::Sell, None, 3), (VendorResult::NoResponse, None));
}

#[test]
fn game_over_any_key_returns_to_menu() {
    assert_eq!(game_over(true), GameOverResult::QuitToMenu);
    assert_eq!(game_over(false), GameOverResult::NoSelection);
}

#[test]
fn game_over_statistics_lines() {
    let mut events = EventCounts::new();
    record_event(&mut events, "Turn".to_string(), 1);
    record_event(&mut events, "Turn".to_string(), 1);
    record_event(&mut events, "Damage Taken".to_string(), 7);
    let lines = game_over_stats(&events);
    assert_eq!(lines, vec![
        "You lived for 2 turns.".to_string(),
        "You inflicted 0 points of damage.".to_string(),
        "You suffered 7 points of damage.".to_string(),
    ]);
}

#[test]
fn inventory_drop_and_remove_menus_list_the_players_items() {
    let items = vec![
        item(1, Some(100), None, "Dagger", false, false),
        item(2, Some(200), None, "Shield", false, false),
        item(3, None, Some(100), "Helm", false, false),
        item(4, Some(100), None, "Potion", false, false),
    ];
    assert_eq!(show_inventory(&items, 100), vec![1, 4]);
    assert_eq!(drop_item_menu(&items, 100), vec![1, 4]);
    assert_eq!(remove_item_menu(&items, 100), vec![3]);
    assert_eq!(remove_item_menu(&items, 200), Vec::<u32>::new());
}

#[test]
fn identify_menu_lists_unidentified_obfuscated_items() {
    let mut dm = MasterDungeonMap::new();
    dm.identify("Known Wand".to_string());
    let items = vec![
        item(1, Some(100), None, "Scroll of Fire", true, false),
        item(2, Some(100), None, "Known Wand", true, false),
        item(3, None, Some(100), "Cursed Ring", true, true),
        item(4, Some(100), None, "Bread", false, false),
        item(5, Some(7), None, "Scroll of Ice", true, false),
    ];
    assert_eq!(identify_menu(&items, 100, &dm), vec![1, 3]);
}

#[test]
fn remove_curse_menu_lists_known_curses() {
    let mut dm = MasterDungeonMap::new();
    dm.identify("Cursed Sword".to_string());
    let items = vec![
        item(1, Some(100), None, "Cursed Sword", true, true),
        item(2, Some(100), None, "Cursed Boots", true, true),
        item(3, None, Some(100), "Cursed Ring", true, true),
        item(4, None, Some(100), "Plain Ring", false, false),
    ];
    assert_eq!(remove_curse_menu(&items, 100, &dm), vec![1, 3]);
}

#[test]
fn ranged_targeting_offers_cells_in_reach() {
    let player = Point { x: 20, y: 20 };
    let visible = vec![
        Point { x: 20, y: 20 },
        Point { x: 23, y: 24 },
        Point { x: 24, y: 24 },
        Point { x: 0, y: 0 },
    ];
    let bounds = (0, 44, 0, 44);
    let cells = target_cells(player, &visible, 5, bounds);
    assert_eq!(cells, vec![Point { x: 20, y: 20 }, Point { x: 23, y: 24 }]);
    assert_eq!(target_cells(player, &visible, -1, bounds), Vec::<Point>::new());
}

#[test]
fn ranged_targeting_click() {
    let cells = vec![Point { x: 12, y: 13 }];
    assert_eq!(ranged_target(Some(&cells), (2, 3), 10, 10, true), (ItemMenuResult::Selected, Some(Point { x: 12, y: 13 })));
    assert_eq!(ranged_target(Some(&cells), (2, 4), 10, 10, true), (ItemMenuResult::Cancel, None));
    assert_eq!(ranged_target(Some(&cells), (2, 3), 10, 10, false), (ItemMenuResult::NoResponse, None));
    assert_eq!(ranged_target(None, (2, 3), 10, 10, false), (ItemMenuResult::Cancel, None));
}
