use rusty_roguelike::ai::adjacent_ai_system::AdjacentAI;
use rusty_roguelike::ai::approach_ai_system::ApproachAI;
use rusty_roguelike::ai::chase_ai_system::{ChaseAI, ChaseTurn};
use rusty_roguelike::ai::default_move_ai::{DefaultMoveAI, WaypointStep};
use rusty_roguelike::ai::flee_ai_system::FleeAI;
use rusty_roguelike::ai::initiative_system::InitiativeSystem;
use rusty_roguelike::ai::quip_system::{quip_line, QuipSystem};
use rusty_roguelike::ai::turn_status_system::TurnStatusSystem;
use rusty_roguelike::ai::visible_ai_system::VisibleAI;
use rusty_roguelike::ai::{wander_step, Reaction};
use rusty_roguelike::animal_ai_system::{AnimalAISystem, CarnivoreAction};
use rusty_roguelike::components::{Attribute, Duration, HungerClock, HungerState, Initiative, Pool, Pools, Position};
use rusty_roguelike::damage_system::{drops_for_victim, find_the_dead, DamageSystem};
use rusty_roguelike::effects::damage::{
    award_xp, heal_damage, inflict_damage, level_up_message, level_up_rows, refill_on_level_up, restore_mana,
    DamageOutcome,
};
use rusty_roguelike::effects::hunger::well_fed;
use rusty_roguelike::encumbrance_system::EncumbranceSystem;
use rusty_roguelike::hunger_system::{HungerMessage, HungerSystem, HungerTurn};

fn pools(hp: i32, max: i32) -> Pools {
    Pools { hit_points: Pool { max, current: hp }, mana: Pool { max: 4, current: 2 }, xp: 0, level: 1, god_mode: false }
}

#[test]
fn wandering_directions() {
    assert_eq!(wander_step(5, 5, 1), (4, 5));
    assert_eq!(wander_step(5, 5, 2), (6, 5));
    assert_eq!(wander_step(5, 5, 3), (5, 4));
    assert_eq!(wander_step(5, 5, 4), (5, 6));
    assert_eq!(wander_step(5, 5, 5), (5, 5));
}

#[test]
fn path_steps() {
    assert_eq!(ApproachAI::next_step(true, &vec![4, 5, 6]), Some(5));
    assert_eq!(ApproachAI::next_step(true, &vec![4]), None);
    assert_eq!(ApproachAI::next_step(false, &vec![4, 5]), None);
    let long: Vec<usize> = (0..15).collect();
    assert_eq!(ChaseAI::next_step(true, &long), None);
    let short: Vec<usize> = (0..14).collect();
    assert_eq!(ChaseAI::next_step(true, &short), Some(1));
    assert_eq!(FleeAI::flee_step(Some(3), false), Some(3));
    assert_eq!(FleeAI::flee_step(Some(3), true), None);
    assert_eq!(FleeAI::flee_step(None, false), None);
}

#[test]
fn waypoints() {
    let mut path = vec![1, 2, 3];
    assert_eq!(DefaultMoveAI::follow_waypoint(&mut path, false), WaypointStep::Move { dest: 2 });
    assert_eq!(path, vec![2, 3]);
    assert_eq!(DefaultMoveAI::follow_waypoint(&mut path, true), WaypointStep::Wait);
    assert_eq!(path, vec![2, 3]);
    let mut done = vec![9];
    assert_eq!(DefaultMoveAI::follow_waypoint(&mut done, false), WaypointStep::Arrived);
}

#[test]
fn melee_and_sight_decisions() {
    let r = vec![(1, Reaction::Attack), (2, Reaction::Ignore), (3, Reaction::Attack), (4, Reaction::Flee)];
    assert_eq!(AdjacentAI::melee_target(&r), Some(3));
    assert_eq!(AdjacentAI::melee_target(&vec![(1, Reaction::Flee)]), None);
    let seen = vec![(10, Reaction::Flee, 1), (11, Reaction::Attack, 2), (12, Reaction::Attack, 3)];
    let d = VisibleAI::decide(&seen, &vec![None, None, None]);
    assert_eq!(d.approach, Some((11, 2)));
    assert_eq!(d.cast, None);
    assert!(d.flee.is_none());
    let d = VisibleAI::decide(&seen, &vec![None, Some(0), None]);
    assert_eq!(d.cast, Some((1, 0)));
    assert_eq!(d.approach, None);
    let scared = vec![(10, Reaction::Flee, 1), (13, Reaction::Flee, 2)];
    assert_eq!(VisibleAI::decide(&scared, &vec![None, None]).flee, Some(vec![10, 13]));
}

#[test]
fn confusion_skips_turns() {
    let turns = vec![1, 2, 3];
    let statuses = vec![(2, true), (4, true), (3, false), (1, true)];
    assert_eq!(TurnStatusSystem::skipped_turns(&turns, &statuses), vec![2, 1]);
}

#[test]
fn quip_text_line() {
    assert_eq!(quip_line("Barkeep", "Drink up!"), "Barkeep says \"Drink up!\"");
}

#[test]
fn quips_need_lines_and_sight() {
    let mut rng = rltk::RandomNumberGenerator::seeded(7);
    let mut none: Vec<String> = Vec::new();
    assert_eq!(QuipSystem::maybe_quip(&mut none, true, "Bob", &mut rng), None);
    let mut lines = vec!["Hi".to_string()];
    assert_eq!(QuipSystem::maybe_quip(&mut lines, false, "Bob", &mut rng), None);
    assert_eq!(lines.len(), 1);
    let mut said = None;
    for _ in 0..200 {
        if let Some(l) = QuipSystem::maybe_quip(&mut lines, true, "Bob", &mut rng) {
            said = Some(l);
            break;
        }
    }
    assert_eq!(said, Some("Bob says \"Hi\"".to_string()));
    assert!(lines.is_empty());
}

#[test]
fn initiative_counts_down_then_rolls() {
    let mut rng = rltk::RandomNumberGenerator::seeded(3);
    let mut init = Initiative { current: 5 };
    let t = InitiativeSystem::tick(&mut init, &mut rng, false, None, None, 0, 0);
    assert_eq!(init.current, 4);
    assert!(!t.my_turn && !t.awaiting_input);
    let mut init = Initiative { current: 1 };
    let t = InitiativeSystem::tick(&mut init, &mut rng, true, Some(2), Some(1), 0, 0);
    assert!(t.my_turn && t.awaiting_input);
    assert!(6 <= init.current && init.current <= 11);
    let mut far = Initiative { current: 0 };
    let t = InitiativeSystem::tick(&mut far, &mut rng, false, None, None, 20, 1);
    assert!(!t.my_turn);
    let mut near = Initiative { current: 0 };
    let t = InitiativeSystem::tick(&mut near, &mut rng, false, None, None, 12, 16);
    assert!(t.my_turn && !t.awaiting_input);
}

#[test]
fn status_durations() {
    let mut d = Duration { turns: 2 };
    assert_eq!(InitiativeSystem::tick_status(&mut d, Some(3)), (Some(3), false));
    assert_eq!(InitiativeSystem::tick_status(&mut d, None), (None, true));
    assert_eq!(d.turns, 0);
}

#[test]
fn melee_reach_of_animals() {
    assert!(AnimalAISystem::in_melee_reach(1, 1));
    assert!(AnimalAISystem::in_melee_reach(0, -1));
    assert!(!AnimalAISystem::in_melee_reach(2, 0));
}

#[test]
fn hunger_clock_worsens() {
    let mut c = HungerClock { state: HungerState::WellFed, duration: 1 };
    assert_eq!(HungerSystem::tick(&mut c, true), HungerTurn { message: Some(HungerMessage::NoLongerWellFed), damage: 0 });
    assert_eq!(c, HungerClock { state: HungerState::Normal, duration: 200 });
    let mut c = HungerClock { state: HungerState::Normal, duration: 1 };
    assert_eq!(HungerSystem::tick(&mut c, false), HungerTurn { message: None, damage: 0 });
    assert_eq!(c.state, HungerState::Hungry);
    let mut c = HungerClock { state: HungerState::Starving, duration: 0 };
    assert_eq!(HungerSystem::tick(&mut c, true), HungerTurn { message: Some(HungerMessage::HungerPangs), damage: 1 });
    assert_eq!(c, HungerClock { state: HungerState::Starving, duration: -1 });
    let mut c = HungerClock { state: HungerState::Hungry, duration: 50 };
    assert_eq!(HungerSystem::tick(&mut c, true), HungerTurn { message: None, damage: 0 });
    assert_eq!(c, HungerClock { state: HungerState::Hungry, duration: 49 });
    let mut c = HungerClock { state: HungerState::Starving, duration: 3 };
    well_fed(&mut c);
    assert_eq!(c, HungerClock { state: HungerState::WellFed, duration: 20 });
}

#[test]
fn carrying_capacity() {
    let might = Attribute { base: 10, modifiers: 2, bonus: 1 };
    assert_eq!(EncumbranceSystem::carry_capacity(&might), 180);
    assert!(EncumbranceSystem::is_overburdened(181, &might));
    assert!(!EncumbranceSystem::is_overburdened(180, &might));
}

#[test]
fn damage_and_death() {
    let mut p = pools(5, 10);
    assert_eq!(inflict_damage(&mut p, 3), DamageOutcome { landed: true, died: false });
    assert_eq!(p.hit_points.current, 2);
    assert_eq!(inflict_damage(&mut p, 2), DamageOutcome { landed: true, died: true });
    let mut god = Pools { god_mode: true, ..pools(5, 10) };
    assert_eq!(inflict_damage(&mut god, 50), DamageOutcome { landed: false, died: false });
    assert_eq!(god.hit_points.current, 5);
}

#[test]
fn heal_and_mana_are_capped() {
    let mut p = pools(5, 10);
    heal_damage(&mut p, 3);
    assert_eq!(p.hit_points, Pool { max: 10, current: 8 });
    heal_damage(&mut p, 30);
    assert_eq!(p.hit_points, Pool { max: 10, current: 10 });
    restore_mana(&mut p, 5);
    assert_eq!(p.mana, Pool { max: 4, current: 4 });
}

#[test]
fn experience_and_levels() {
    let mut p = pools(10, 10);
    assert!(!award_xp(&mut p, 999));
    assert_eq!((p.xp, p.level), (999, 1));
    assert!(award_xp(&mut p, 1));
    assert_eq!((p.xp, p.level), (1000, 2));
    refill_on_level_up(&mut p, 25, 9);
    assert_eq!((p.hit_points, p.mana), (Pool { max: 25, current: 25 }, Pool { max: 9, current: 9 }));
    assert_eq!(level_up_message(2), "Congratulations, you are now level 2");
    assert_eq!(level_up_rows(20), (11..=20).rev().collect::<Vec<i32>>());
    assert_eq!(level_up_rows(4), vec![4, 3, 2]);
}

#[test]
fn damage_system_awards_kills() {
    let mut p = Pools { level: 3, ..pools(10, 10) };
    let xp = DamageSystem::apply_damage(&mut p, &vec![(4, true), (7, true), (2, false)]);
    assert_eq!(p.hit_points.current, -3);
    assert_eq!(xp, 300);
}

#[test]
fn the_dead_and_their_drops() {
    let creatures = vec![(1, 0, false), (2, 5, false), (3, -4, false), (4, 0, true)];
    assert_eq!(find_the_dead(&creatures), (vec![1, 3], true));
    assert_eq!(find_the_dead(&vec![(1, 1, true)]), (vec![], false));
    let drops = drops_for_victim(1, Some(Position { x: 3, y: 4 }), &vec![(10, 1), (11, 2)], &vec![(12, 1)]);
    assert_eq!(drops.len(), 2);
    assert!(drops.contains(&(10, Position { x: 3, y: 4 })) && drops.contains(&(12, Position { x: 3, y: 4 })));
    assert_eq!(drops_for_victim(1, None, &vec![(10, 1)], &vec![]), vec![]);
}

#[test]
fn death_log_line() {
    assert_eq!(rusty_roguelike::damage_system::death_message("Goblin"), "Goblin is dead");
}

#[test]
fn carnivores_bite_or_chase() {
    match AnimalAISystem::carnivore_plan(&vec![(10, 3, 0, 1), (11, 1, 1, 2), (12, -1, 0, 3)]) {
        CarnivoreAction::Attack { target } => assert_eq!(target, 3),
        _ => panic!("expected an attack"),
    }
    match AnimalAISystem::carnivore_plan(&vec![(10, 3, 0, 1), (14, 0, -2, 2)]) {
        CarnivoreAction::Chase { cells } => assert_eq!(cells, vec![10, 14]),
        _ => panic!("expected a chase"),
    }
    assert!(matches!(AnimalAISystem::carnivore_plan(&vec![]), CarnivoreAction::Idle));
}

#[test]
fn quip_rolls_pick_and_use_up_a_line() {
    let mut lines = vec!["Hi".to_string(), "Yo".to_string(), "Hey".to_string()];
    assert_eq!(QuipSystem::quip_with_rolls(&mut lines, true, "Bob", 3, 2), None);
    assert_eq!(lines.len(), 3);
    assert_eq!(QuipSystem::quip_with_rolls(&mut lines, false, "Bob", 1, 2), None);
    assert_eq!(QuipSystem::quip_with_rolls(&mut lines, true, "Bob", 1, 2), Some("Bob says \"Yo\"".to_string()));
    assert_eq!(lines, vec!["Hi".to_string(), "Hey".to_string()]);
    let mut one = vec!["Bye".to_string()];
    assert_eq!(QuipSystem::quip_with_rolls(&mut one, true, "Ann", 1, 7), Some("Ann says \"Bye\"".to_string()));
    assert!(one.is_empty());
}

#[test]
fn bystander_quip_rolls_keep_the_lines() {
    let lines = vec!["Hi".to_string(), "Yo".to_string()];
    assert_eq!(
        rusty_roguelike::bystander_ai_system::BystanderAISystem::quip_with_rolls(&lines, true, "Bob", 1, 1),
        Some("Bob says \"Hi\"".to_string())
    );
    assert_eq!(rusty_roguelike::bystander_ai_system::BystanderAISystem::quip_with_rolls(&lines, true, "Bob", 6, 1), None);
    assert_eq!(lines.len(), 2);
    let mut rng = rltk::RandomNumberGenerator::seeded(9);
    assert_eq!(rusty_roguelike::bystander_ai_system::BystanderAISystem::maybe_quip(&lines, false, "Bob", &mut rng), None);
    let mut said = 0;
    for _ in 0..300 {
        if let Some(l) = rusty_roguelike::bystander_ai_system::BystanderAISystem::maybe_quip(&lines, true, "Bob", &mut rng) {
            assert!(l == "Bob says \"Hi\"" || l == "Bob says \"Yo\"");
            said += 1;
        }
    }
    assert!(said > 0 && said < 300);
}

#[test]
fn initiative_reroll_formula() {
    assert_eq!(InitiativeSystem::reroll(3, Some(1), Some(2)), 10);
    assert_eq!(InitiativeSystem::reroll(6, None, None), 12);
    assert_eq!(InitiativeSystem::reroll(1, Some(-2), None), 9);
    assert!(InitiativeSystem::runs_in(rusty_roguelike::run_state::RunState::Ticking));
    assert!(!InitiativeSystem::runs_in(rusty_roguelike::run_state::RunState::AwaitingInput));
}

#[test]
fn chase_turn_bookkeeping() {
    assert_eq!(
        ChaseAI::chase_turn(false, true, &vec![1, 2]),
        ChaseTurn { step: None, stop_chasing: true, turn_done: false }
    );
    assert_eq!(
        ChaseAI::chase_turn(true, true, &vec![1, 2, 3]),
        ChaseTurn { step: Some(2), stop_chasing: false, turn_done: true }
    );
    assert_eq!(
        ChaseAI::chase_turn(true, false, &vec![1, 2, 3]),
        ChaseTurn { step: None, stop_chasing: true, turn_done: true }
    );
}

#[test]
fn cheats_touch_only_their_pool() {
    let mut p = pools(3, 10);
    rusty_roguelike::gui::menu::cheat::cheat_heal(&mut p);
    assert_eq!(p.hit_points.current, 10);
    assert!(!p.god_mode);
    assert_eq!(p.mana.current, 2);
    rusty_roguelike::gui::menu::cheat::cheat_god_mode(&mut p);
    assert!(p.god_mode);
    assert_eq!(p.hit_points.current, 10);
}

#[test]
fn loot_drops_where_the_victim_stood() {
    let at = Position { x: 3, y: 4 };
    assert_eq!(
        rusty_roguelike::damage_system::loot_drop(Some("Dagger".to_string()), Some(at)),
        Some(("Dagger".to_string(), at))
    );
    assert_eq!(rusty_roguelike::damage_system::loot_drop(None, Some(at)), None);
    assert_eq!(rusty_roguelike::damage_system::loot_drop(Some("Dagger".to_string()), None), None);
}

#[test]
fn damage_fits_checks_every_step() {
    assert!(DamageSystem::damage_fits(10, 2, &vec![(3, true), (20, true)]));
    assert!(!DamageSystem::damage_fits(i32::MIN + 1, 1, &vec![(2, false)]));
    assert!(!DamageSystem::damage_fits(10, i32::MAX, &vec![]));
    assert!(!DamageSystem::damage_fits(0, 20_000_000, &vec![(1, true), (1, true)]));
}

#[test]
fn sight_decisions_cast_last_and_approach_first() {
    let seen = vec![(10, Reaction::Attack, 1), (11, Reaction::Attack, 2), (12, Reaction::Flee, 3)];
    let d = VisibleAI::decide(&seen, &vec![Some(4), Some(5), None]);
    assert_eq!(d.cast, Some((1, 5)));
    assert_eq!(d.approach, None);
    assert!(d.flee.is_none());
    let d = VisibleAI::decide(&seen, &vec![None, Some(5), None]);
    assert_eq!(d.cast, Some((1, 5)));
    assert_eq!(d.approach, Some((10, 1)));
}
