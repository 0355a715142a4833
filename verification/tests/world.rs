use rusty_roguelike::components::{OtherLevelPosition, Point, Position};
use rusty_roguelike::gamelog::builder::{LogColor, Logger};
use rusty_roguelike::gamelog::events::{clear_events, clone_events, get_event_count, load_events, record_event, EventCounts};
use rusty_roguelike::lighting_system::LightingSystem;
use rusty_roguelike::animal_ai_system::AnimalAISystem;
use rusty_roguelike::map::camera::{draw_order, get_screen_bounds, CameraCell, PANE_WIDTH};
use rusty_roguelike::map::dungeon::{
    arrival_position, freeze_level_entities, place_up_stairs, thaw_level_entities, MasterDungeonMap,
};
use rusty_roguelike::map::themes::{get_wall_glyph, theme_char, theme_for, tile_glyph, Theme};
use rusty_roguelike::map::tiletype::{tile_opaque, tile_walkable, TileType};
use rusty_roguelike::ai::default_move_ai::{DefaultMoveAI, MoveTurn};
use rusty_roguelike::map::GameMap;
use rusty_roguelike::rect::Rect;

fn floor_map(w: i32, h: i32) -> GameMap {
    let mut m = GameMap::new(1, w, h, "Test".to_string());
    for y in 1..h - 1 {
        for x in 1..w - 1 {
            let i = m.xy_idx(x, y);
            m.tiles[i] = TileType::Floor;
        }
    }
    m
}

#[test]
fn tile_properties() {
    assert!(tile_walkable(TileType::Floor));
    assert!(tile_walkable(TileType::Bridge));
    assert!(!tile_walkable(TileType::Wall));
    assert!(!tile_walkable(TileType::DeepWater));
    assert!(tile_opaque(TileType::Wall));
    assert!(!tile_opaque(TileType::DeepWater));
}

#[test]
fn new_map_is_solid_wall() {
    let m = GameMap::new(3, 10, 5, "Cave".to_string());
    assert_eq!((m.width, m.height, m.depth), (10, 5, 3));
    assert_eq!(m.tiles.len(), 50);
    assert!(m.tiles.iter().all(|t| *t == TileType::Wall));
    assert!(m.revealed_tiles.iter().all(|r| !r));
    assert_eq!(m.name, "Cave");
}

#[test]
fn index_round_trip() {
    let m = GameMap::new(1, 80, 50, "x".to_string());
    assert_eq!(m.xy_idx(3, 2), 163);
    assert_eq!(m.idx_xy(163), (3, 2));
    for idx in [0usize, 79, 80, 3999] {
        let (x, y) = m.idx_xy(idx);
        assert_eq!(m.xy_idx(x, y), idx);
    }
}

#[test]
fn exits_of_an_open_cell() {
    let mut m = floor_map(5, 5);
    m.populate_blocked();
    let centre = m.xy_idx(2, 2);
    let exits = m.get_available_exits(centre);
    assert_eq!(exits.len(), 8);
    assert_eq!(exits.iter().filter(|e| e.diagonal).count(), 4);
    let corner = m.xy_idx(1, 1);
    let exits = m.get_available_exits(corner);
    assert_eq!(exits.len(), 3);
    assert!(m.is_exit_valid(2, 2));
    assert!(!m.is_exit_valid(0, 2));
    assert!(!m.is_exit_valid(-1, 2));
}

#[test]
fn blocking_and_opacity() {
    let mut m = floor_map(4, 4);
    m.populate_blocked();
    assert!(m.blocked[0]);
    assert!(!m.blocked[m.xy_idx(1, 1)]);
    assert!(m.is_opaque(0));
    assert!(!m.is_opaque(m.xy_idx(1, 1)));
    let from = m.xy_idx(1, 1);
    let to = m.xy_idx(2, 1);
    m.blocked[from] = true;
    assert!(m.move_blocker(from, to));
    assert!(!m.blocked[from] && m.blocked[to]);
}

#[test]
fn content_index_is_cleared() {
    let mut m = floor_map(4, 4);
    m.tile_content[5].push(9);
    m.clear_content_index();
    assert!(m.tile_content.iter().all(|c| c.is_empty()));
}

#[test]
fn rooms_and_tunnels_are_dug() {
    let mut m = GameMap::new(1, 20, 20, "x".to_string());
    let room = Rect::new(2, 2, 3, 3);
    m.apply_room_to_map(&room);
    assert_eq!(m.tiles[m.xy_idx(3, 3)], TileType::Floor);
    assert_eq!(m.tiles[m.xy_idx(5, 5)], TileType::Floor);
    assert_eq!(m.tiles[m.xy_idx(2, 2)], TileType::Wall);
    assert_eq!(m.tiles[m.xy_idx(6, 6)], TileType::Wall);
    m.apply_horizontal_tunnel(12, 8, 10);
    assert!((8..=12).all(|x| m.tiles[m.xy_idx(x, 10)] == TileType::Floor));
    m.apply_vertical_tunnel(14, 16, 4);
    assert!((14..=16).all(|y| m.tiles[m.xy_idx(4, y)] == TileType::Floor));
    assert_eq!(m.tiles[m.xy_idx(4, 17)], TileType::Wall);
}

#[test]
fn rectangles() {
    let a = Rect::new(0, 0, 4, 4);
    let b = Rect::new(3, 3, 4, 4);
    let c = Rect::new(5, 5, 2, 2);
    assert!(a.intersects(&b) && b.intersects(&a));
    assert!(!a.intersects(&c) && !c.intersects(&a));
    assert_eq!(a.center(), (2, 2));
    assert_eq!(Rect::new(1, 1, 5, 3).center(), (3, 2));
}

#[test]
fn generated_level_layout() {
    let m = GameMap::new_map_rooms_and_corridors();
    assert_eq!((m.width, m.height), (80, 50));
    for x in 0..80 {
        assert_eq!(m.tiles[m.xy_idx(x, 0)], TileType::Wall);
        assert_eq!(m.tiles[m.xy_idx(x, 49)], TileType::Wall);
    }
    for y in 0..50 {
        assert_eq!(m.tiles[m.xy_idx(0, y)], TileType::Wall);
        assert_eq!(m.tiles[m.xy_idx(79, y)], TileType::Wall);
    }
    assert!(!m.rooms.is_empty());
    for (i, a) in m.rooms.iter().enumerate() {
        for b in m.rooms.iter().skip(i + 1) {
            assert!(!a.intersects(b));
        }
        for y in a.y1 + 1..=a.y2 {
            for x in a.x1 + 1..=a.x2 {
                assert_eq!(m.tiles[m.xy_idx(x, y)], TileType::Floor);
            }
        }
    }
    assert!(m.tiles.iter().all(|t| *t == TileType::Wall || *t == TileType::Floor));
}

#[test]
fn test_map_has_border_and_open_spawn() {
    let m = GameMap::new(1, 80, 50, "x".to_string());
    let tiles = m.new_map_test();
    assert_eq!(tiles.len(), 4000);
    for x in 0..80 {
        assert_eq!(tiles[m.xy_idx(x, 0)], TileType::Wall);
        assert_eq!(tiles[m.xy_idx(x, 49)], TileType::Wall);
    }
    assert_eq!(tiles[m.xy_idx(40, 25)], TileType::Floor);
}

#[test]
fn magic_map_row_and_bloodstains() {
    let mut m = floor_map(6, 4);
    m.reveal_row(2);
    for x in 0..6 {
        assert!(m.revealed_tiles[m.xy_idx(x, 2)]);
        assert!(!m.revealed_tiles[m.xy_idx(x, 1)]);
    }
    m.bloodstain(7);
    m.bloodstain(7);
    assert!(m.bloodstains.contains(&7));
    assert_eq!(m.bloodstains.len(), 1);
}

#[test]
fn camera_window_and_cells() {
    assert_eq!(get_screen_bounds(30, 40), (8, 52, 18, 62));
    assert_eq!(PANE_WIDTH, 44);
    let mut m = floor_map(10, 10);
    let idx = m.xy_idx(3, 4);
    m.revealed_tiles[idx] = true;
    assert_eq!(m.camera_cell(3, 4), CameraCell::Tile { idx });
    assert_eq!(m.camera_cell(4, 4), CameraCell::Unseen);
    assert_eq!(m.camera_cell(0, 4), CameraCell::Boundary);
    assert_eq!(m.camera_cell(9, 4), CameraCell::Boundary);
    m.visible_tiles[idx] = true;
    assert_eq!(m.entity_screen_pos(3, 4, 1, 1), Some((2, 3)));
    assert_eq!(m.sized_cell_screen_pos(3, 4, 1, 1), Some((3, 4)));
    assert_eq!(m.entity_screen_pos(3, 4, 3, 1), None);
    assert_eq!(m.entity_screen_pos(4, 4, 1, 1), None);
}

#[test]
fn entities_drawn_by_render_order() {
    assert_eq!(draw_order(&vec![0, 2, 1, 2, 0]), vec![1, 3, 2, 0, 4]);
    assert_eq!(draw_order(&vec![]), Vec::<usize>::new());
}

#[test]
fn themes_by_depth() {
    assert_eq!(theme_for(1, 80, 5), Theme::Default);
    assert_eq!(theme_for(2, 80, 5), Theme::Forest);
    assert_eq!(theme_for(3, 80, 5), Theme::LimestoneCavern);
    assert_eq!(theme_for(5, 80, 39), Theme::LimestoneCavern);
    assert_eq!(theme_for(5, 80, 40), Theme::Default);
    assert_eq!(theme_for(7, 80, 64), Theme::Mushroom);
    assert_eq!(theme_for(7, 80, 65), Theme::Default);
    assert_eq!(theme_for(9, 80, 5), Theme::Mushroom);
    assert_eq!(theme_char(Theme::Forest, TileType::Wall), '♣');
    assert_eq!(theme_char(Theme::LimestoneCavern, TileType::ShallowWater), '░');
    assert_eq!(theme_char(Theme::Default, TileType::DownStairs), '>');
}

#[test]
fn wall_glyphs_join_revealed_walls() {
    let mut m = GameMap::new(1, 5, 5, "x".to_string());
    assert_eq!(get_wall_glyph(&m, 0, 0), 35);
    assert_eq!(get_wall_glyph(&m, 2, 2), 9);
    for (x, y) in [(2, 1), (2, 3), (1, 2), (3, 2)] {
        let i = m.xy_idx(x, y);
        m.revealed_tiles[i] = true;
    }
    assert_eq!(get_wall_glyph(&m, 2, 2), 206);
    let i = m.xy_idx(2, 2);
    assert_eq!(tile_glyph(i, &m), 206);
    m.tiles[i] = TileType::Floor;
    assert_eq!(tile_glyph(i, &m), 46);
}

#[test]
fn dungeon_store_and_get() {
    let mut dm = MasterDungeonMap::new();
    assert!(dm.get_map(2).is_none());
    let mut m = floor_map(6, 6);
    m.depth = 2;
    dm.store_map(&m);
    let back = dm.get_map(2).unwrap();
    assert_eq!((back.width, back.height, back.depth), (6, 6, 2));
    assert_eq!(back.tiles, m.tiles);
    assert!(dm.get_map(1).is_none());
}

#[test]
fn arrival_on_stairs() {
    let mut m = floor_map(6, 6);
    let up = m.xy_idx(2, 3);
    m.tiles[up] = TileType::UpStairs;
    let down = m.xy_idx(4, 1);
    m.tiles[down] = TileType::DownStairs;
    assert_eq!(arrival_position(&m, 1), Some((2, 3)));
    assert_eq!(arrival_position(&m, -1), Some((4, 1)));
    let plain = floor_map(6, 6);
    assert_eq!(arrival_position(&plain, 1), None);
}

#[test]
fn freeze_then_thaw_restores_positions() {
    let positions = vec![(1, Position { x: 3, y: 4 }), (9, Position { x: 1, y: 1 }), (2, Position { x: 5, y: 6 })];
    let frozen = freeze_level_entities(&positions, 9, 4);
    assert_eq!(frozen, vec![
        (1, OtherLevelPosition { x: 3, y: 4, depth: 4 }),
        (2, OtherLevelPosition { x: 5, y: 6, depth: 4 }),
    ]);
    assert_eq!(thaw_level_entities(&frozen, 9, 4), vec![(1, Position { x: 3, y: 4 }), (2, Position { x: 5, y: 6 })]);
    assert_eq!(thaw_level_entities(&frozen, 9, 3), vec![]);
}

#[test]
fn event_counts() {
    let mut events = EventCounts::new();
    let turn = "Turn".to_string();
    assert_eq!(get_event_count(&events, &turn), 0);
    record_event(&mut events, turn.clone(), 1);
    record_event(&mut events, turn.clone(), 1);
    record_event(&mut events, "Kill".to_string(), 3);
    assert_eq!(get_event_count(&events, &turn), 2);
    assert_eq!(get_event_count(&events, &"Kill".to_string()), 3);
    let saved = clone_events(&events);
    clear_events(&mut events);
    assert_eq!(get_event_count(&events, &turn), 0);
    load_events(&mut events, saved);
    assert_eq!(get_event_count(&events, &turn), 2);
    assert_eq!(get_event_count(&events, &"Kill".to_string()), 3);
}

#[test]
fn log_lines_keep_fragment_order() {
    let line = Logger::new().white("You hit the ").red("Orc").white(".").log();
    assert_eq!(line.len(), 3);
    assert_eq!(line[1].color, LogColor::Red);
    assert_eq!(line[1].text, "Orc");
    let all = Logger::new().yellow("a").cyan("b").orange("c").green("d").magenta("e").log();
    let colors: Vec<LogColor> = all.iter().map(|f| f.color).collect();
    assert_eq!(colors, vec![LogColor::Yellow, LogColor::Cyan, LogColor::Orange, LogColor::Green, LogColor::Magenta]);
}

#[test]
fn lights_and_threats() {
    let m = floor_map(6, 6);
    assert_eq!(LightingSystem::lit_cell(&m, Point { x: 2, y: 3 }), Some(m.xy_idx(2, 3)));
    assert_eq!(LightingSystem::lit_cell(&m, Point { x: 7, y: 3 }), None);
    let mut m = floor_map(6, 6);
    let i = m.xy_idx(2, 2);
    m.tile_content[i] = vec![5, 6];
    let j = m.xy_idx(3, 3);
    m.tile_content[j] = vec![6];
    let visible = vec![Point { x: 2, y: 2 }, Point { x: 3, y: 3 }];
    assert_eq!(AnimalAISystem::threats(&m, &visible, &vec![6]), vec![i]);
}

#[test]
fn up_stairs_on_new_levels() {
    let mut m = floor_map(6, 6);
    place_up_stairs(&mut m, 1, Some(Position { x: 2, y: 2 }));
    assert_eq!(m.tiles[m.xy_idx(2, 2)], TileType::Floor);
    place_up_stairs(&mut m, 2, None);
    assert!(!m.tiles.contains(&TileType::UpStairs));
    place_up_stairs(&mut m, 2, Some(Position { x: 2, y: 2 }));
    assert_eq!(m.tiles[m.xy_idx(2, 2)], TileType::UpStairs);
    assert_eq!(m.tiles.iter().filter(|t| **t == TileType::UpStairs).count(), 1);
}

#[test]
fn stored_levels_are_known() {
    let mut dm = MasterDungeonMap::new();
    assert!(!dm.has_level(3));
    let mut m = floor_map(4, 4);
    m.depth = 3;
    dm.store_map(&m);
    assert!(dm.has_level(3));
    assert!(!dm.has_level(4));
}

#[test]
fn themed_glyphs_use_the_code_page() {
    let mut forest = GameMap::new(2, 6, 6, "Woods".to_string());
    assert_eq!(tile_glyph(forest.xy_idx(2, 2), &forest), 5);
    let i = forest.xy_idx(3, 3);
    forest.tiles[i] = TileType::DeepWater;
    assert_eq!(tile_glyph(i, &forest), 247);
    let cavern = GameMap::new(3, 6, 6, "Caves".to_string());
    assert_eq!(tile_glyph(cavern.xy_idx(2, 2), &cavern), 177);
}

#[test]
fn room_past_the_right_edge_wraps_to_the_next_row() {
    let mut m = GameMap::new(1, 5, 5, "x".to_string());
    m.apply_room_to_map(&Rect::new(2, 1, 3, 1));
    assert_eq!(m.tiles[m.xy_idx(3, 2)], TileType::Floor);
    assert_eq!(m.tiles[m.xy_idx(4, 2)], TileType::Floor);
    assert_eq!(m.tiles[m.xy_idx(0, 3)], TileType::Floor);
    assert_eq!(m.tiles.iter().filter(|t| **t == TileType::Floor).count(), 3);
}

#[test]
fn generated_rooms_are_joined_by_corridors() {
    for _ in 0..5 {
        let m = GameMap::new_map_rooms_and_corridors();
        for k in 1..m.rooms.len() {
            let (ax, ay) = m.rooms[k - 1].center();
            let (bx, by) = m.rooms[k].center();
            for x in ax.min(bx)..=ax.max(bx) {
                assert_eq!(m.tiles[m.xy_idx(x, ay)], TileType::Floor);
            }
            for y in ay.min(by)..=ay.max(by) {
                assert_eq!(m.tiles[m.xy_idx(bx, y)], TileType::Floor);
            }
        }
    }
}

#[test]
fn bystander_steps_by_roll() {
    let mut m = floor_map(10, 10);
    let here = m.xy_idx(5, 5);
    m.blocked[here] = true;
    let mut pos = Position { x: 5, y: 5 };
    assert!(rusty_roguelike::ai::bystander_ai_system::BystanderAISystem::wander_with_roll(&mut m, &mut pos, 1));
    assert_eq!(pos, Position { x: 4, y: 5 });
    assert!(!m.blocked[here]);
    assert!(m.blocked[m.xy_idx(4, 5)]);
    // Staying put on an occupied cell is no move.
    assert!(!rusty_roguelike::ai::bystander_ai_system::BystanderAISystem::wander_with_roll(&mut m, &mut pos, 5));
    assert_eq!(pos, Position { x: 4, y: 5 });
    // A blocked neighbour stops the step.
    let east = m.xy_idx(5, 5);
    m.blocked[east] = true;
    assert!(!rusty_roguelike::ai::bystander_ai_system::BystanderAISystem::wander_with_roll(&mut m, &mut pos, 2));
    assert_eq!(pos, Position { x: 4, y: 5 });
    // The outer ring is never entered.
    let mut edge = Position { x: 1, y: 5 };
    let before = m.blocked.clone();
    assert!(!rusty_roguelike::ai::bystander_ai_system::BystanderAISystem::wander_with_roll(&mut m, &mut edge, 1));
    assert_eq!(edge, Position { x: 1, y: 5 });
    assert_eq!(m.blocked, before);
}

#[test]
fn bystander_random_wander_stays_in_the_ring() {
    let mut m = floor_map(10, 10);
    let mut rng = rltk::RandomNumberGenerator::seeded(11);
    let mut pos = Position { x: 5, y: 5 };
    let start = m.xy_idx(5, 5);
    m.blocked[start] = true;
    for _ in 0..100 {
        let from = pos;
        let moved = rusty_roguelike::ai::bystander_ai_system::BystanderAISystem::wander(&mut m, &mut pos, &mut rng);
        let dist = (pos.x - from.x).abs() + (pos.y - from.y).abs();
        if moved {
            assert_eq!(dist, 1);
        } else {
            assert_eq!(pos, from);
        }
        assert!(pos.x > 0 && pos.x < 9 && pos.y > 0 && pos.y < 9);
        assert_eq!(m.blocked.iter().filter(|b| **b).count(), 1);
        assert!(m.blocked[m.xy_idx(pos.x, pos.y)]);
    }
}

#[test]
fn waypoint_target_needs_a_walkable_cell() {
    let mut m = floor_map(10, 10);
    assert_eq!(rusty_roguelike::ai::default_move_ai::DefaultMoveAI::waypoint_target_at(&m, 3, 4), Some(43));
    let i = m.xy_idx(3, 4);
    m.tiles[i] = TileType::Wall;
    assert_eq!(rusty_roguelike::ai::default_move_ai::DefaultMoveAI::waypoint_target_at(&m, 3, 4), None);
}

#[test]
fn random_waypoint_target_picks_an_inner_cell() {
    let open = floor_map(10, 10);
    let walls = GameMap::new(1, 10, 10, "x".to_string());
    let mut rng = rltk::RandomNumberGenerator::seeded(5);
    for _ in 0..100 {
        let t = rusty_roguelike::ai::default_move_ai::DefaultMoveAI::random_waypoint_target(&open, &mut rng).unwrap();
        let (x, y) = (t as i32 % 10, t as i32 / 10);
        assert!(x >= 1 && x <= 8 && y >= 1 && y <= 8);
        assert_eq!(rusty_roguelike::ai::default_move_ai::DefaultMoveAI::random_waypoint_target(&walls, &mut rng), None);
    }
}

#[test]
fn test_layout_walls_exactly_the_rolled_cells() {
    let m = GameMap::new(1, 10, 8, "x".to_string());
    let tiles = m.test_layout_from_rolls(&vec![(3, 2), (9, 3), (3, 2), (5, 6)]);
    assert_eq!(tiles.len(), 80);
    for y in 0..8 {
        for x in 0..10 {
            let border = x == 0 || x == 9 || y == 0 || y == 7;
            let rolled = (x, y) == (3, 2) || (x, y) == (5, 6);
            let expect = if border || rolled { TileType::Wall } else { TileType::Floor };
            assert_eq!(tiles[m.xy_idx(x, y)], expect);
        }
    }
    let big = GameMap::new(1, 80, 50, "x".to_string());
    let tiles = big.test_layout_from_rolls(&vec![(40, 25), (41, 25)]);
    assert_eq!(tiles[big.xy_idx(40, 25)], TileType::Floor);
    assert_eq!(tiles[big.xy_idx(41, 25)], TileType::Wall);
}

#[test]
fn test_map_has_at_most_400_inner_walls() {
    let m = GameMap::new(1, 80, 50, "x".to_string());
    let tiles = m.new_map_test();
    let mut inner = 0;
    for y in 1..49 {
        for x in 1..79 {
            if tiles[m.xy_idx(x, y)] == TileType::Wall {
                inner += 1;
            }
        }
    }
    assert!(inner <= 400);
}

#[test]
fn rooms_from_rolls_keeps_rooms_that_fit() {
    let cands = vec![(1, 1, 6, 6, true), (3, 3, 6, 6, false), (20, 10, 7, 8, false)];
    let m = GameMap::rooms_from_rolls(&cands);
    assert_eq!(m.rooms, vec![Rect { x1: 1, x2: 7, y1: 1, y2: 7 }, Rect { x1: 20, x2: 27, y1: 10, y2: 18 }]);
    for y in 2..=7 {
        for x in 2..=7 {
            assert_eq!(m.tiles[m.xy_idx(x, y)], TileType::Floor);
        }
    }
    // The corridor between the centres (4, 4) and (23, 14).
    for x in 4..=23 {
        assert_eq!(m.tiles[m.xy_idx(x, 4)], TileType::Floor);
    }
    for y in 4..=14 {
        assert_eq!(m.tiles[m.xy_idx(23, y)], TileType::Floor);
    }
    assert_eq!(m.tiles[m.xy_idx(10, 10)], TileType::Wall);
    assert!(GameMap::rooms_from_rolls(&Vec::new()).rooms.is_empty());
    let first = GameMap::rooms_from_rolls(&vec![(5, 5, 9, 9, true)]);
    assert_eq!(first.rooms.len(), 1);
}

#[test]
fn random_mover_needs_a_free_inner_cell() {
    let mut m = floor_map(10, 10);
    let turn = DefaultMoveAI::random_move_for_roll(&m, 5, 5, 2);
    assert_eq!(turn, MoveTurn { dest: Some(56), turn_done: true });
    m.blocked[56] = true;
    assert_eq!(DefaultMoveAI::random_move_for_roll(&m, 5, 5, 2), MoveTurn { dest: None, turn_done: true });
    assert_eq!(DefaultMoveAI::destination_for_roll(&m, 5, 5, 2), Some(56));
    assert_eq!(DefaultMoveAI::random_move_for_roll(&m, 1, 5, 1), MoveTurn { dest: None, turn_done: true });
    assert_eq!(DefaultMoveAI::destination_for_roll(&m, 1, 5, 1), None);
    let mut rng = rltk::RandomNumberGenerator::seeded(4);
    for _ in 0..50 {
        let t = DefaultMoveAI::random_move(&m, &mut rng, 5, 5);
        assert!(t.turn_done);
        assert!(matches!(t.dest, None | Some(45) | Some(54) | Some(65) | Some(55)));
    }
}
