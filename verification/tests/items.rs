use rusty_roguelike::components::{EquipmentSlot, Point, Pool};
use rusty_roguelike::inventory_system::{
    item_log_line, obfuscate_name, ItemIdentificationSystem, ItemLogLine, ItemRemoveSystem, ItemUseSystem, UsableItem,
};
use rusty_roguelike::map::dungeon::MasterDungeonMap;
use rusty_roguelike::run_state::RunState;

fn plain() -> UsableItem {
    UsableItem {
        equip_slot: None,
        damage: None,
        heal: None,
        confusion_turns: None,
        food: false,
        magic_mapper: false,
        town_portal: false,
        consumable: false,
    }
}

#[test]
fn log_names_hide_unidentified_magic() {
    let mut dm = MasterDungeonMap::new();
    let name = "Scroll of Fire".to_string();
    let fake = "Scroll of Hbxq".to_string();
    assert_eq!(obfuscate_name(None, true, Some(&fake), &dm), "Nameless item (bug)");
    assert_eq!(obfuscate_name(Some(&name), false, Some(&fake), &dm), "Scroll of Fire");
    assert_eq!(obfuscate_name(Some(&name), true, Some(&fake), &dm), "Scroll of Hbxq");
    assert_eq!(obfuscate_name(Some(&name), true, None, &dm), "Nameless item (bug)");
    dm.identify(name.clone());
    assert_eq!(obfuscate_name(Some(&name), true, Some(&fake), &dm), "Scroll of Fire");
}

#[test]
fn equipping_replaces_the_slot() {
    let equipped = vec![
        (1, 100, EquipmentSlot::Melee),
        (2, 100, EquipmentSlot::Shield),
        (3, 200, EquipmentSlot::Melee),
        (4, 100, EquipmentSlot::Melee),
    ];
    assert_eq!(ItemUseSystem::slot_conflicts(&equipped, 100, EquipmentSlot::Melee), vec![1, 4]);
    assert_eq!(ItemUseSystem::slot_conflicts(&equipped, 100, EquipmentSlot::Head), Vec::<u32>::new());
}

#[test]
fn healing_is_capped_at_maximum() {
    let mut hp = Pool { max: 20, current: 15 };
    assert_eq!(ItemUseSystem::heal(&mut hp, 8), 5);
    assert_eq!(hp, Pool { max: 20, current: 20 });
    let mut hp = Pool { max: 20, current: 5 };
    assert_eq!(ItemUseSystem::heal(&mut hp, 8), 8);
    assert_eq!(hp, Pool { max: 20, current: 13 });
}

#[test]
fn town_portal_only_away_from_town() {
    assert!(!ItemUseSystem::town_portal_works(1));
    assert!(ItemUseSystem::town_portal_works(2));
}

#[test]
fn use_plan_for_scrolls() {
    let mapper = UsableItem { magic_mapper: true, consumable: true, ..plain() };
    let plan = ItemUseSystem::plan_use(7, 7, &mapper, &vec![7], 3);
    assert_eq!(plan.run_state, Some(RunState::MagicMapReveal { row: 0 }));
    assert!(plan.delete_item && plan.by_player);
    let portal = UsableItem { town_portal: true, consumable: true, ..plain() };
    let away = ItemUseSystem::plan_use(7, 7, &portal, &vec![7], 3);
    assert_eq!(away.run_state, Some(RunState::TownPortal));
    assert!(!away.portal_in_town);
    let home = ItemUseSystem::plan_use(7, 7, &portal, &vec![7], 1);
    assert_eq!(home.run_state, None);
    assert!(home.portal_in_town);
    let both = UsableItem { town_portal: true, magic_mapper: true, ..plain() };
    assert_eq!(ItemUseSystem::plan_use(7, 7, &both, &vec![7], 2).run_state, Some(RunState::TownPortal));
    assert_eq!(ItemUseSystem::plan_use(7, 7, &both, &vec![7], 1).run_state, Some(RunState::MagicMapReveal { row: 0 }));
}

#[test]
fn use_plan_for_gear_food_and_potions() {
    let sword = UsableItem { equip_slot: Some(EquipmentSlot::Melee), ..plain() };
    let plan = ItemUseSystem::plan_use(9, 7, &sword, &vec![9, 3], 2);
    assert_eq!(plan.equip_on, Some(9));
    assert!(!plan.by_player && !plan.delete_item);
    let ration = UsableItem { food: true, consumable: true, ..plain() };
    assert_eq!(ItemUseSystem::plan_use(7, 7, &ration, &vec![7], 2).feed, Some(7));
    let potion = UsableItem { heal: Some(8), damage: Some(2), confusion_turns: Some(4), consumable: true, ..plain() };
    let plan = ItemUseSystem::plan_use(7, 7, &potion, &vec![], 2);
    assert_eq!((plan.heal, plan.damage, plan.confusion_turns, plan.feed, plan.equip_on), (Some(8), Some(2), Some(4), None, None));
}

#[test]
fn blasts_stay_inside_the_ring() {
    let cells = vec![Point { x: 0, y: 3 }, Point { x: 1, y: 1 }, Point { x: 9, y: 5 }, Point { x: 8, y: 8 }, Point { x: 5, y: 9 }];
    assert_eq!(ItemUseSystem::blast_cells(&cells, 10, 10), vec![Point { x: 1, y: 1 }, Point { x: 8, y: 8 }]);
}

#[test]
fn targets_of_an_item() {
    assert_eq!(ItemUseSystem::use_targets(7, false, &vec![vec![1, 2]]), vec![7]);
    assert_eq!(ItemUseSystem::use_targets(7, true, &vec![vec![1, 2], vec![], vec![3]]), vec![1, 2, 3]);
    assert_eq!(ItemUseSystem::use_targets(7, true, &vec![]), Vec::<u32>::new());
}

#[test]
fn identification_reveals_every_copy() {
    let mut dm = MasterDungeonMap::new();
    let items = vec![(1, "Wand".to_string()), (2, "Rock".to_string()), (3, "Wand".to_string())];
    let name = "Wand".to_string();
    assert_eq!(ItemIdentificationSystem::identify(&mut dm, &name, true, &items), vec![1, 3]);
    assert!(dm.is_identified(&name));
    assert_eq!(ItemIdentificationSystem::identify(&mut dm, &name, true, &items), Vec::<u32>::new());
    let rock = "Rock".to_string();
    assert_eq!(ItemIdentificationSystem::identify(&mut dm, &rock, false, &items), Vec::<u32>::new());
    assert!(!dm.is_identified(&rock));
}

#[test]
fn item_log_lines() {
    assert_eq!(item_log_line(&ItemLogLine::PickUp { item: "Dagger".to_string() }), "You pick up the Dagger.");
    assert_eq!(item_log_line(&ItemLogLine::Drop { item: "Dagger".to_string() }), "You drop the Dagger.");
    assert_eq!(item_log_line(&ItemLogLine::Remove { item: "Helm".to_string() }), "You unequip the Helm.");
    assert_eq!(item_log_line(&ItemLogLine::Unequip { item: "Helm".to_string() }), "You unequip Helm.");
    assert_eq!(item_log_line(&ItemLogLine::Equip { item: "Helm".to_string() }), "You equip Helm.");
    assert_eq!(
        item_log_line(&ItemLogLine::Damage { item: "Fire Scroll".to_string(), target: "Orc".to_string(), amount: 20 }),
        "You use Fire Scroll on Orc, inflicting 20 hp."
    );
    assert_eq!(
        item_log_line(&ItemLogLine::Heal { item: "Health Potion".to_string(), amount: 8 }),
        "You drink the Health Potion, healing 8 hp."
    );
    assert_eq!(
        item_log_line(&ItemLogLine::Confuse { item: "Confusion Scroll".to_string(), target: "Goblin".to_string() }),
        "You use Confusion Scroll on Goblin, confusing them."
    );
    assert_eq!(item_log_line(&ItemLogLine::Eat { item: "Ration".to_string() }), "You eat the Ration.");
    assert_eq!(item_log_line(&ItemLogLine::MapRevealed), "The map is revealed to you!");
    assert_eq!(item_log_line(&ItemLogLine::AlreadyInTown), "You are already in town, so the scroll does nothing.");
    assert_eq!(item_log_line(&ItemLogLine::PortalHome), "You are telported back to town!");
}

#[test]
fn equipping_keeps_one_item_per_slot() {
    let mut worn = vec![(10, 1, EquipmentSlot::Melee), (11, 1, EquipmentSlot::Shield), (12, 2, EquipmentSlot::Melee)];
    let off = ItemUseSystem::equip(&mut worn, 13, 1, EquipmentSlot::Melee);
    assert_eq!(off, vec![10]);
    assert!(worn.contains(&(13, 1, EquipmentSlot::Melee)));
    assert!(worn.contains(&(11, 1, EquipmentSlot::Shield)));
    assert!(worn.contains(&(12, 2, EquipmentSlot::Melee)));
    assert!(!worn.contains(&(10, 1, EquipmentSlot::Melee)));
    assert_eq!(worn.len(), 3);
    // Moving a worn item to another owner replaces its old entry.
    let off = ItemUseSystem::equip(&mut worn, 11, 2, EquipmentSlot::Shield);
    assert!(off.is_empty());
    assert!(!worn.contains(&(11, 1, EquipmentSlot::Shield)));
    assert!(worn.contains(&(11, 2, EquipmentSlot::Shield)));
}

#[test]
fn cursed_items_stay_on() {
    let mut worn = vec![(10, 1, EquipmentSlot::Melee), (11, 1, EquipmentSlot::Shield)];
    assert!(!ItemRemoveSystem::take_off(&mut worn, 10, true));
    assert_eq!(worn.len(), 2);
    assert!(ItemRemoveSystem::take_off(&mut worn, 10, false));
    assert_eq!(worn, vec![(11, 1, EquipmentSlot::Shield)]);
    assert_eq!(
        item_log_line(&ItemLogLine::Cursed { item: "Cursed Longsword".to_string() }),
        "You cannot unequip Cursed Longsword - it is cursed!"
    );
}

#[test]
fn healing_a_deeply_wounded_target() {
    let mut hp = Pool { max: i32::MAX, current: i32::MIN + 5 };
    assert_eq!(ItemUseSystem::heal(&mut hp, 0), 0);
    assert_eq!(hp.current, i32::MIN + 5);
    let mut hp = Pool { max: 10, current: 4 };
    assert_eq!(ItemUseSystem::heal(&mut hp, 8), 6);
    assert_eq!(hp.current, 10);
    let mut hp = Pool { max: 10, current: 4 };
    assert_eq!(ItemUseSystem::heal(&mut hp, 3), 3);
    assert_eq!(hp.current, 7);
}
