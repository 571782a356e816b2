use engine::ai::wants_new_intent;
use engine::camera::{camera_cell, entity_screen_cell, get_tile_glyph, CellView};
use engine::components::Viewshed;
use engine::engine::{BuilderKind, Engine, GameMode};
use engine::geometry::Point;
use engine::indexing::SpatialKnowledge;
use engine::input::{handle_input, CommandContext, Key};
use engine::items::{plan_item_use, EquipmentSlot, ItemProps, Worn};
use engine::map::{TileMap, TileType};
use engine::runstate::RunState;
use std::collections::HashMap;

#[test]
fn villagers_keep_fresh_intents_and_rethink_stale_ones() {
    assert!(wants_new_intent(None, 100));
    assert!(!wants_new_intent(Some(95), 100));
    assert!(!wants_new_intent(Some(100), 100));
    assert!(wants_new_intent(Some(94), 100));
}

#[test]
fn new_level_builders_follow_the_mode() {
    assert_eq!(Engine::new_level_builder(GameMode::Sim), BuilderKind::Village);
    assert_eq!(Engine::new_level_builder(GameMode::RL), BuilderKind::DrunkardsBombingRun);
    let random = [
        BuilderKind::BspDungeon,
        BuilderKind::BspInterior,
        BuilderKind::CellularAutomata,
        BuilderKind::DrunkardsBombingRun,
        BuilderKind::BspFarm,
    ];
    let mut seen = std::collections::HashSet::new();
    for _ in 0..200 {
        let b = Engine::new_level_builder(GameMode::NotSelected);
        assert!(random.contains(&b));
        seen.insert(format!("{:?}", b));
    }
    assert!(seen.len() > 1);
}

#[test]
fn escape_works_at_the_map_border() {
    let m = TileMap::new(1, TileType::Floor, (5, 5));
    let ctx = CommandContext { player_pos: Point::new(0, 0), items_here: vec![], on_stairs: false };
    let o = handle_input(Some(Key::Escape), GameMode::RL, &m, &ctx);
    assert_eq!(o.state, RunState::EscPressed);
    let stairs = handle_input(Some(Key::Period), GameMode::RL, &m, &ctx);
    assert_eq!(stairs.state, RunState::AwaitingInput);
    assert!(stairs.no_stairs_message);
}

#[test]
fn equipping_replaces_what_was_worn_in_the_slot() {
    let m = TileMap::new(1, TileType::Floor, (5, 5));
    let shield = ItemProps {
        aoe: None,
        fire: None,
        heal: None,
        damage: None,
        confusion: None,
        consumable: false,
        equip_slot: Some(EquipmentSlot::LeftHand),
    };
    let worn = vec![
        Worn { item: 20, owner: 1, slot: EquipmentSlot::LeftHand },
        Worn { item: 21, owner: 1, slot: EquipmentSlot::RightHand },
        Worn { item: 22, owner: 2, slot: EquipmentSlot::LeftHand },
    ];
    let plan = plan_item_use(&m, None, &shield, 1, &vec![1], &vec![], &worn);
    assert_eq!(plan.equip_to, Some(1));
    assert_eq!(plan.unequip, vec![20]);
}

#[test]
fn unknown_cells_look_the_same_whatever_they_hold() {
    let m1 = TileMap::new(1, TileType::Floor, (4, 4));
    let mut m2 = TileMap::new(1, TileType::Floor, (4, 4));
    m2.tiles[15] = TileType::Water;
    m2.fire_turns[15] = 3;
    let mut tiles = HashMap::new();
    tiles.insert(0usize, (TileType::Floor, vec![]));
    let know = SpatialKnowledge { tiles };
    let vs = Viewshed { visible_tiles: vec![Point::new(0, 0)], range: 3, dirty: false };
    for y in -1..5 {
        for x in -1..5 {
            let a = camera_cell(&m1, GameMode::RL, &know, &vs, x, y);
            let b = camera_cell(&m2, GameMode::RL, &know, &vs, x, y);
            assert_eq!(a, b);
            if let CellView::Tile { idx, .. } = a {
                assert_eq!(get_tile_glyph(&m1, idx), get_tile_glyph(&m2, idx));
            }
        }
    }
    assert_eq!(camera_cell(&m2, GameMode::RL, &know, &vs, 3, 3), CellView::Unseen);
    assert_eq!(entity_screen_cell(GameMode::RL, false, &vs, Point::new(3, 3), 0, 0, 1, 1, (80, 50)), None);
    assert_eq!(entity_screen_cell(GameMode::RL, false, &vs, Point::new(0, 0), 0, 0, 1, 1, (80, 50)), Some((1, 1)));
}
