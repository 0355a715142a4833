use rusty_roguelike::components::{Attribute, Attributes, Consumable, HungerState, MagicItemClass, Pool, Pools};
use rusty_roguelike::gui::hud::{
    depth_text, draw_attribute, draw_hollow_box, hotkey_items, hotkey_label, hunger_label, name_banner, pool_text,
    spell_line, status_lines, weapon_info, xp_progress, BoxPiece, HudColor,
};
use rusty_roguelike::gui::item_render::{get_item_color, get_item_display_name, name_with_count, ItemColor};
use rusty_roguelike::gui::tooltips::{
    attribute_comment, entity_tooltip, mouse_on_map, stack_top, tooltip_arrow, tooltip_positions, tooltip_x, Tooltip,
    TooltipArrow,
};
use rusty_roguelike::map::dungeon::MasterDungeonMap;

fn attr(base: i32, modifiers: i32, bonus: i32) -> Attribute {
    Attribute { base, modifiers, bonus }
}

#[test]
fn item_colors() {
    let mut dm = MasterDungeonMap::new();
    let name = "Ring of Doom".to_string();
    assert_eq!(get_item_color(Some(&name), true, Some(MagicItemClass::Rare), &dm), ItemColor::Rare);
    dm.identify(name.clone());
    assert_eq!(get_item_color(Some(&name), true, Some(MagicItemClass::Rare), &dm), ItemColor::Cursed);
    assert_eq!(get_item_color(Some(&name), false, Some(MagicItemClass::Legendary), &dm), ItemColor::Legendary);
    assert_eq!(get_item_color(None, true, Some(MagicItemClass::Common), &dm), ItemColor::Common);
    assert_eq!(get_item_color(Some(&name), false, None, &dm), ItemColor::Plain);
}

#[test]
fn item_display_names() {
    let mut dm = MasterDungeonMap::new();
    let wand = "Wand of Sparks".to_string();
    let fake = "Strange Wand".to_string();
    let charges = Some(Consumable { max_charges: 5, charges: 3 });
    assert_eq!(get_item_display_name(None, true, charges, Some(&fake), &dm), "Nameless item (bug)");
    assert_eq!(get_item_display_name(Some(&wand), false, charges, Some(&fake), &dm), "Wand of Sparks");
    assert_eq!(get_item_display_name(Some(&wand), true, charges, Some(&fake), &dm), "Strange Wand");
    assert_eq!(get_item_display_name(Some(&wand), true, charges, None, &dm), "Unidentified magic item");
    dm.identify(wand.clone());
    assert_eq!(get_item_display_name(Some(&wand), true, charges, Some(&fake), &dm), "Wand of Sparks (3)");
    let single = Some(Consumable { max_charges: 1, charges: 1 });
    assert_eq!(get_item_display_name(Some(&wand), true, single, Some(&fake), &dm), "Wand of Sparks");
    assert_eq!(get_item_display_name(Some(&wand), true, None, Some(&fake), &dm), "Wand of Sparks");
}

#[test]
fn counts_in_brackets() {
    assert_eq!(name_with_count("Confusion", 3), "Confusion (3)");
    assert_eq!(name_with_count("Slow", -2), "Slow (-2)");
    assert_eq!(spell_line("Zap", 12), "Zap (12)");
}

#[test]
fn banner_is_centred_on_the_pane() {
    assert_eq!(name_banner(&"Town".to_string()), (41, 6));
    assert_eq!(name_banner(&"".to_string()), (43, 2));
    assert_eq!(name_banner(&"Bracketon".to_string()), (39, 11));
}

#[test]
fn stat_lines() {
    assert_eq!(pool_text("Health: ", Pool { max: 30, current: 17 }), "Health: 17/30");
    assert_eq!(pool_text("Mana: ", Pool { max: 5, current: -1 }), "Mana: -1/5");
    assert_eq!(depth_text(3), "Depth: 3");
    assert_eq!(hotkey_label(4), "↑4");
}

#[test]
fn experience_into_level() {
    let p = Pools { hit_points: Pool { max: 10, current: 10 }, mana: Pool { max: 0, current: 0 }, xp: 2450, level: 3, god_mode: false };
    assert_eq!(xp_progress(&p), 450);
    let q = Pools { xp: 0, level: 1, ..p };
    assert_eq!(xp_progress(&q), 0);
}

#[test]
fn attribute_display() {
    let v = draw_attribute(&attr(11, -2, 0));
    assert_eq!((v.color, v.total, v.plus_sign), (HudColor::Red, 9, false));
    let v = draw_attribute(&attr(11, 0, 1));
    assert_eq!((v.color, v.total, v.plus_sign), (HudColor::White, 11, true));
    let v = draw_attribute(&attr(11, 3, 2));
    assert_eq!((v.color, v.total, v.plus_sign), (HudColor::Green, 14, true));
}

#[test]
fn weapon_lines() {
    assert_eq!(weapon_info("Dagger", 1, 4, 0, None), "┤ Dagger (1d4) ├");
    assert_eq!(weapon_info("Axe", 2, 6, 3, None), "┤ Axe (2d6+3) ├");
    assert_eq!(weapon_info("Stick", 1, 3, -1, None), "┤ Stick (1d3-1) ├");
    assert_eq!(
        weapon_info("Bow", 1, 8, 0, Some(6)),
        "┤ Bow (1d8) (range: 6, F to fire, V cycle targets) ├"
    );
}

#[test]
fn hunger_labels() {
    assert_eq!(hunger_label(HungerState::WellFed), ("Well Fed".to_string(), HudColor::Green));
    assert_eq!(hunger_label(HungerState::Normal), ("Normal".to_string(), HudColor::White));
    assert_eq!(hunger_label(HungerState::Hungry), ("Hungry".to_string(), HudColor::Orange));
    assert_eq!(hunger_label(HungerState::Starving), ("Starving".to_string(), HudColor::Red));
}

#[test]
fn status_list_grows_upwards() {
    let statuses = vec![("Confusion".to_string(), 4), ("Slow".to_string(), 2)];
    assert_eq!(
        status_lines(HungerState::Normal, &statuses),
        vec![(44, "Confusion (4)".to_string()), (43, "Slow (2)".to_string())]
    );
    assert_eq!(
        status_lines(HungerState::Hungry, &statuses),
        vec![(43, "Confusion (4)".to_string()), (42, "Slow (2)".to_string())]
    );
}

#[test]
fn only_nine_hotkeys() {
    let items: Vec<u32> = (1..=12).collect();
    assert_eq!(hotkey_items(&items), (1..=9).collect::<Vec<u32>>());
    assert_eq!(hotkey_items(&vec![5, 6]), vec![5, 6]);
}

#[test]
fn hollow_box_outline() {
    let cells = draw_hollow_box(1, 2, 2, 3);
    assert_eq!(cells, vec![
        (1, 2, BoxPiece::TopLeft),
        (3, 2, BoxPiece::TopRight),
        (1, 5, BoxPiece::BottomLeft),
        (3, 5, BoxPiece::BottomRight),
        (2, 2, BoxPiece::Horizontal),
        (2, 5, BoxPiece::Horizontal),
        (1, 3, BoxPiece::Vertical),
        (3, 3, BoxPiece::Vertical),
        (1, 4, BoxPiece::Vertical),
        (3, 4, BoxPiece::Vertical),
    ]);
    assert_eq!(draw_hollow_box(0, 0, 79, 59).len(), 4 + 2 * 78 + 2 * 58);
}

#[test]
fn tooltip_size() {
    let mut t = Tooltip::new();
    assert_eq!((t.get_width(), t.get_height()), (2, 2));
    t.add_line("Goblin".to_string());
    t.add_line("Level: 2".to_string());
    assert_eq!((t.get_width(), t.get_height()), (10, 4));
    t.add_line("é".to_string());
    assert_eq!(t.get_width(), 10);
}

#[test]
fn attribute_remarks() {
    let avg = Attributes { might: attr(10, 0, 0), fitness: attr(10, 0, 0), quickness: attr(10, 0, 0), intelligence: attr(10, 0, 0) };
    assert_eq!(attribute_comment(&avg), "Quite average");
    let odd = Attributes { might: attr(14, 0, 2), fitness: attr(8, 0, -1), quickness: attr(8, 0, -1), intelligence: attr(14, 0, 2) };
    assert_eq!(attribute_comment(&odd), "Strong. Clumsy. Unhealthy. Smart. ");
}

#[test]
fn entity_tooltip_lines() {
    let a = Attributes { might: attr(14, 0, 2), fitness: attr(10, 0, 0), quickness: attr(10, 0, 0), intelligence: attr(10, 0, 0) };
    let tip = entity_tooltip("Orc".to_string(), Some(&a), Some(3), &vec![("Confusion".to_string(), 2)]);
    assert_eq!(tip.get_height(), 6);
    assert_eq!(tip.get_width(), 15);
    let plain = entity_tooltip("Apple".to_string(), None, None, &Vec::new());
    assert_eq!(plain.get_height(), 3);
}

#[test]
fn tooltip_placement() {
    assert!(mouse_on_map(1, 1, 80, 50));
    assert!(!mouse_on_map(0, 5, 80, 50));
    assert!(!mouse_on_map(79, 5, 80, 50));
    assert!(!mouse_on_map(5, 49, 80, 50));
    assert_eq!(tooltip_arrow(10), (TooltipArrow::Right, 9));
    assert_eq!(tooltip_arrow(40), (TooltipArrow::Left, 41));
    assert_eq!(stack_top(20, 6), 17);
    assert_eq!(stack_top(49, 6), 46);
    assert_eq!(stack_top(52, 6), 47);
    assert_eq!(tooltip_x(10, 8), 1);
    assert_eq!(tooltip_x(42, 8), 51);
    assert_eq!(tooltip_positions((10, 20), &vec![(8, 4), (5, 3)]), vec![(1, 17), (4, 21)]);
}

#[test]
fn widths_count_bytes() {
    let mut t = Tooltip::new();
    t.add_line("ééééé".to_string());
    assert_eq!(t.get_width(), 12);
    assert_eq!(name_banner(&"Côte".to_string()), (41, 7));
}

#[test]
fn decimal_text_and_byte_length() {
    assert_eq!(rusty_roguelike::text::i32_to_string(0), "0");
    assert_eq!(rusty_roguelike::text::i32_to_string(1234), "1234");
    assert_eq!(rusty_roguelike::text::i32_to_string(-56), "-56");
    assert_eq!(rusty_roguelike::text::i32_to_string(i32::MIN), "-2147483648");
    assert_eq!(rusty_roguelike::text::i32_to_string(i32::MAX), "2147483647");
    assert_eq!(rusty_roguelike::text::byte_len(&"a\u{e9}\u{20ac}\u{1f600}".to_string()), 10);
    assert_eq!(rusty_roguelike::text::byte_len(&String::new()), 0);
}
