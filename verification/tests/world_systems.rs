use engine::ai::{Intent, Target, Task};
use engine::backpack::{inventory, run_drop_item_system, unequip_item, ItemRequest};
use engine::camera::{camera_cell, entity_screen_cell, get_tile_glyph, CellView, TileColor};
use engine::components::{Inventory, ItemType, ItemTypes, Position, Viewshed};
use engine::effects::{EffectSpawner, EffectType, Targets};
use engine::engine::{GameLog, GameMode};
use engine::fire::{inflict_fire_tile, run_fire_system, OnFire, NEW_FIRE_TURNS};
use engine::geometry::Point;
use engine::indexing::{reveal_map, run_map_indexing_system, Placed, SpatialKnowledge};
use engine::items::{log_equip, log_item_use, plan_item_use, ItemProps};
use engine::labors::{get_fishing_actions, water_edges, get_wood_gathering_actions, LaborStep, SeenEntity};
use engine::map::{TileMap, TileType};
use engine::movement::{try_move_entity, try_move_or_attack, LocomotionType, Mover};
use engine::player::{get_item, try_next_level};
use engine::visibility::{remember_visible, unexplored_cells, visible_on_map};
use std::collections::HashMap;

fn seen(id: u64, tree: bool, log: bool, mill: bool) -> SeenEntity {
    SeenEntity { id, is_tree: tree, is_log: log, is_mill: mill }
}

#[test]
fn wood_gathering_candidates() {
    let kinds = ItemTypes { entries: vec![(50, ItemType::Log), (51, ItemType::Log), (52, ItemType::Fish)] };
    let inv = Inventory { capacity: 5, items: vec![50, 52, 51] };
    let known = vec![seen(1, true, false, false), seen(2, false, true, false), seen(3, false, false, true), seen(3, false, false, true)];
    let plans = get_wood_gathering_actions(&inv, &kinds, &known);
    assert_eq!(
        plans,
        vec![
            LaborStep::GoToTree(1),
            LaborStep::ChopTree(1),
            LaborStep::PickUpWood(2),
            LaborStep::MoveToLumberMill(3),
            LaborStep::DepositLogs(51, 3),
            LaborStep::Wander,
        ]
    );
}

#[test]
fn a_full_villager_only_delivers_and_wanders() {
    let kinds = ItemTypes { entries: vec![(50, ItemType::Log)] };
    let inv = Inventory { capacity: 1, items: vec![50] };
    let known = vec![seen(1, true, false, false), seen(2, false, true, false), seen(3, false, false, true)];
    let plans = get_wood_gathering_actions(&inv, &kinds, &known);
    assert_eq!(plans, vec![LaborStep::MoveToLumberMill(3), LaborStep::DepositLogs(50, 3), LaborStep::Wander]);
    let empty_handed = Inventory { capacity: 0, items: vec![] };
    assert_eq!(get_wood_gathering_actions(&empty_handed, &kinds, &known), vec![LaborStep::Wander]);
}

#[test]
fn labor_intents() {
    let i: Intent = LaborStep::DepositLogs(7, 9).intent(12);
    assert_eq!(i.name, "deposit logs at lumber mill");
    assert_eq!(i.task, Task::DepositItemToInventory);
    assert_eq!(i.target, vec![Target::ENTITY(7), Target::ENTITY(9)]);
    assert_eq!(i.turn, 12);
    let w = LaborStep::Wander.intent(1);
    assert_eq!(w.name, "wander");
    assert_eq!(w.task, Task::Explore);
    assert!(w.target.is_empty());
    let f = LaborStep::FishAtWater(Point::new(2, 2)).intent(3);
    assert_eq!(f.name, "fish at water");
    assert_eq!(f.task, Task::Fish);
    assert_eq!(f.target, vec![Target::LOCATION(Point::new(2, 2))]);
    assert_eq!(LaborStep::GoToTree(1).intent(0).name, "go to tree");
    assert_eq!(LaborStep::ChopTree(1).intent(0).task, Task::Destroy);
    assert_eq!(LaborStep::PickUpWood(1).intent(0).name, "pick up wood");
    assert_eq!(LaborStep::MoveToLumberMill(1).intent(0).name, "move to lumber mill");
    assert_eq!(LaborStep::GoToWater(Point::new(0, 0)).intent(0).name, "go to water");
}

fn river_map() -> TileMap {
    let mut m = TileMap::new(1, TileType::Grass, (5, 6));
    for x in 0..5 {
        let a = m.xy_idx(x, 3);
        m.tiles[a] = TileType::Water;
        let b = m.xy_idx(x, 4);
        m.tiles[b] = TileType::Water;
    }
    m
}

#[test]
fn fishing_spots_are_north_of_the_river() {
    let m = river_map();
    let known = vec![(m.xy_idx(2, 3), TileType::Water), (m.xy_idx(2, 4), TileType::Water), (m.xy_idx(1, 1), TileType::Grass)];
    assert_eq!(water_edges(&m, &known), vec![Point::new(2, 2)]);
    let inv = Inventory { capacity: 2, items: vec![] };
    assert_eq!(
        get_fishing_actions(&inv, &m, &known),
        vec![LaborStep::GoToWater(Point::new(2, 2)), LaborStep::FishAtWater(Point::new(2, 2))]
    );
    let full = Inventory { capacity: 0, items: vec![] };
    assert!(get_fishing_actions(&full, &m, &known).is_empty());
}

#[test]
fn fire_off_the_players_turn_does_nothing() {
    let mut m = TileMap::new(1, TileType::Grass, (3, 3));
    m.fire_turns[4] = 5;
    let before = m.fire_turns.clone();
    let fires = vec![OnFire { id: 1, turns: 3, fighter: true, cells: vec![Point::new(1, 1)] }];
    let t = run_fire_system(&mut m, &fires, false);
    assert!(t.effects.is_empty());
    assert_eq!(t.turns, vec![3]);
    assert!(t.extinguished.is_empty());
    assert_eq!(m.fire_turns, before);
}

#[test]
fn burning_cell_counts_down_and_lights_its_entities() {
    let mut m = TileMap::new(1, TileType::Floor, (3, 1));
    m.fire_turns[1] = 1;
    m.tile_content[1] = vec![8, 9];
    let fires = vec![
        OnFire { id: 4, turns: 1, fighter: true, cells: vec![Point::new(0, 0)] },
        OnFire { id: 5, turns: 3, fighter: false, cells: vec![] },
    ];
    let t = run_fire_system(&mut m, &fires, true);
    assert_eq!(
        t.effects,
        vec![
            EffectType::Damage { amount: 1, target: Targets::Single { target: 4 } },
            EffectType::Fire { turns: NEW_FIRE_TURNS, target: Targets::Single { target: 8 } },
            EffectType::Fire { turns: NEW_FIRE_TURNS, target: Targets::Single { target: 9 } },
        ]
    );
    assert_eq!(t.turns, vec![0, 2]);
    assert_eq!(t.extinguished, vec![4]);
    // floor does not burn: the fire stays out of the other cells
    assert_eq!(m.fire_turns, vec![0, 0, 0]);
    assert_eq!(m.tiles, vec![TileType::Floor, TileType::Floor, TileType::Floor]);
}

#[test]
fn burnt_out_grass_turns_to_dirt() {
    let mut m = TileMap::new(1, TileType::Water, (3, 3));
    m.tiles[4] = TileType::Grass;
    m.fire_turns[4] = 1;
    let t = run_fire_system(&mut m, &vec![], true);
    assert!(t.effects.is_empty());
    assert_eq!(m.tiles[4], TileType::Dirt);
    assert!(m.fire_turns.iter().all(|f| *f == 0));
}

#[test]
fn burning_fighters_light_grass_under_them() {
    let mut m = TileMap::new(1, TileType::Wall, (3, 3));
    m.tiles[4] = TileType::Grass;
    let fires = vec![OnFire { id: 2, turns: 5, fighter: true, cells: vec![Point::new(1, 1)] }];
    run_fire_system(&mut m, &fires, true);
    // lit at ten turns, then burns one turn
    assert_eq!(m.fire_turns[4], NEW_FIRE_TURNS - 1);
    assert_eq!(m.tiles[4], TileType::Grass);
    for i in [0usize, 1, 2, 3, 5, 6, 7, 8] {
        assert_eq!(m.fire_turns[i], 0);
        assert_eq!(m.tiles[i], TileType::Wall);
    }
}

#[test]
fn fire_effects_on_tiles() {
    let mut m = TileMap::new(1, TileType::Floor, (2, 1));
    m.tiles[1] = TileType::Wheat;
    let fire = EffectType::Fire { turns: 4, target: Targets::Tile { tile_idx: 1 } };
    inflict_fire_tile(&mut m, &fire, 1);
    inflict_fire_tile(&mut m, &fire, 1);
    inflict_fire_tile(&mut m, &fire, 0);
    inflict_fire_tile(&mut m, &EffectType::Wait {}, 1);
    assert_eq!(m.fire_turns, vec![0, 8]);
}

#[test]
fn tile_looks() {
    let mut m = TileMap::new(1, TileType::Floor, (3, 1));
    m.tiles[1] = TileType::Water;
    m.tiles[2] = TileType::Grass;
    let floor = get_tile_glyph(&m, 0);
    assert_eq!((floor.glyph, floor.fg, floor.bg), ('·', TileColor::GreenDark, TileColor::MainBg));
    let water = get_tile_glyph(&m, 1);
    assert_eq!((water.glyph, water.fg, water.bg), ('~', TileColor::Water, TileColor::WaterShade));
    m.fire_turns[2] = 3;
    let fire = get_tile_glyph(&m, 2);
    assert_eq!((fire.glyph, fire.fg, fire.bg), ('^', TileColor::Green, TileColor::Fire));
}

#[test]
fn camera_cells() {
    let m = TileMap::new(1, TileType::Floor, (4, 4));
    let mut tiles = HashMap::new();
    tiles.insert(5usize, (TileType::Floor, vec![]));
    tiles.insert(6usize, (TileType::Floor, vec![]));
    let knowledge = SpatialKnowledge { tiles };
    let vs = Viewshed { visible_tiles: vec![Point::new(1, 1)], range: 8, dirty: false };
    assert_eq!(camera_cell(&m, GameMode::RL, &knowledge, &vs, -1, 0), CellView::Boundary);
    assert_eq!(camera_cell(&m, GameMode::RL, &knowledge, &vs, 1, 1), CellView::Tile { idx: 5, dim: false });
    assert_eq!(camera_cell(&m, GameMode::RL, &knowledge, &vs, 2, 1), CellView::Tile { idx: 6, dim: true });
    assert_eq!(camera_cell(&m, GameMode::RL, &knowledge, &vs, 3, 3), CellView::Unseen);
    assert_eq!(camera_cell(&m, GameMode::Sim, &knowledge, &vs, 3, 3), CellView::Tile { idx: 15, dim: false });
}

#[test]
fn entities_on_screen() {
    let vs = Viewshed { visible_tiles: vec![Point::new(10, 10)], range: 8, dirty: false };
    let p = Point::new(10, 10);
    assert_eq!(entity_screen_cell(GameMode::RL, false, &vs, p, 5, 5, 31, 11, (80, 50)), Some((36, 16)));
    assert_eq!(entity_screen_cell(GameMode::Sim, true, &vs, p, 5, 5, 31, 11, (80, 50)), None);
    assert_eq!(entity_screen_cell(GameMode::RL, false, &vs, Point::new(11, 10), 5, 5, 31, 11, (80, 50)), None);
    assert_eq!(entity_screen_cell(GameMode::Sim, false, &vs, Point::new(11, 10), 5, 5, 31, 11, (80, 50)), Some((37, 16)));
    assert_eq!(entity_screen_cell(GameMode::RL, false, &vs, p, 5, 5, 31, 11, (30, 50)), None);
}

#[test]
fn visibility_keeps_cells_on_the_map_and_remembers_them() {
    let mut m = TileMap::new(1, TileType::Floor, (3, 3));
    m.tiles[4] = TileType::Water;
    m.tile_content[4] = vec![7];
    let fov = vec![Point::new(-1, 0), Point::new(1, 1), Point::new(3, 1), Point::new(0, 2)];
    let visible = visible_on_map(&m, &fov);
    assert_eq!(visible, vec![Point::new(1, 1), Point::new(0, 2)]);
    let mut k = SpatialKnowledge { tiles: HashMap::new() };
    remember_visible(&mut k, &m, &visible);
    assert_eq!(k.tiles.len(), 2);
    assert_eq!(k.tiles[&4], (TileType::Water, vec![7]));
    assert_eq!(k.tiles[&6], (TileType::Floor, vec![]));
    m.tiles[0] = TileType::Wall;
    assert_eq!(unexplored_cells(&m, &k), vec![1, 2, 3, 5, 7, 8]);
    reveal_map(&mut k, &m);
    assert_eq!(k.tiles.len(), 9);
    assert!(unexplored_cells(&m, &k).is_empty());
}

#[test]
fn picking_up_what_lies_here() {
    let mut log = GameLog::new();
    let items = vec![(1, Point::new(2, 2)), (2, Point::new(3, 3)), (3, Point::new(2, 2))];
    assert_eq!(get_item(&items, Point::new(2, 2), &mut log), Some(3));
    assert!(log.messages.is_empty());
    assert_eq!(get_item(&items, Point::new(4, 4), &mut log), None);
    assert_eq!(log.messages, vec!["There is nothing to pick up here".to_string()]);
}

#[test]
fn stairs_down() {
    let mut m = TileMap::new(1, TileType::Floor, (3, 3));
    m.tiles[4] = TileType::StairsDown;
    let mut log = GameLog::new();
    assert!(try_next_level(&m, Point::new(1, 1), &mut log));
    assert!(log.messages.is_empty());
    assert!(!try_next_level(&m, Point::new(0, 1), &mut log));
    assert_eq!(log.messages, vec!["There is no stairs down here".to_string()]);
}

fn req(actor: u64, item: u64, name: &str) -> ItemRequest {
    ItemRequest { actor, item, item_name: name.to_string() }
}

#[test]
fn backpack_requests_tell_the_player() {
    let mut log = GameLog::new();
    let reqs = vec![req(1, 10, "Dagger"), req(2, 11, "Log")];
    assert_eq!(inventory(&reqs, 1, &mut log), vec![(10, 1), (11, 2)]);
    assert_eq!(log.messages, vec!["You pick up the Dagger".to_string()]);
    let drops = run_drop_item_system(&reqs, 2, &mut log);
    assert_eq!(
        drops,
        vec![
            EffectSpawner { creator: Some(1), effect_type: EffectType::Drop { entity: 10 } },
            EffectSpawner { creator: Some(2), effect_type: EffectType::Drop { entity: 11 } },
        ]
    );
    assert_eq!(log.messages[1], "You drop the Log");
    assert_eq!(unequip_item(&reqs, 1, &mut log), vec![(10, 1), (11, 2)]);
    assert_eq!(log.messages[2], "You unequip the Dagger");
    assert_eq!(log.messages.len(), 3);
}

fn props() -> ItemProps {
    ItemProps { aoe: None, fire: None, heal: None, damage: None, confusion: None, consumable: true, equip_slot: None }
}

#[test]
fn a_potion_heals_the_player() {
    let m = TileMap::new(1, TileType::Floor, (5, 5));
    let potion = ItemProps { heal: Some(8), ..props() };
    let plan = plan_item_use(&m, None, &potion, 1, &vec![1, 2], &vec![], &vec![]);
    assert_eq!(plan.targets, vec![1]);
    assert_eq!(plan.healed, vec![1]);
    assert!(plan.effects.is_empty());
    assert!(plan.consume);
    assert_eq!(plan.equip_to, None);
}

#[test]
fn a_missile_hits_the_fighters_on_its_cell() {
    let mut m = TileMap::new(1, TileType::Floor, (5, 5));
    m.tile_content[12] = vec![5, 6, 7];
    let missile = ItemProps { damage: Some(8), ..props() };
    let plan = plan_item_use(&m, Some(Point::new(2, 2)), &missile, 1, &vec![1, 5, 7], &vec![], &vec![]);
    assert_eq!(plan.targets, vec![5, 7]);
    assert_eq!(
        plan.effects,
        vec![
            EffectType::Damage { amount: 8, target: Targets::Single { target: 5 } },
            EffectType::Damage { amount: 8, target: Targets::Single { target: 7 } },
        ]
    );
    assert!(plan.consume);
    let empty = plan_item_use(&m, Some(Point::new(0, 0)), &missile, 1, &vec![1, 5, 7], &vec![], &vec![]);
    assert!(empty.targets.is_empty());
    assert!(!empty.consume);
}

#[test]
fn item_use_messages() {
    let mut log = GameLog::new();
    let potion = ItemProps { heal: Some(8), ..props() };
    log_item_use(&mut log, &potion, true, "Health Potion", 1, &vec!["Player".to_string()]);
    assert_eq!(log.messages, vec!["You use the Health Potion, healing 8 hp".to_string()]);
    let scroll = ItemProps { damage: Some(20), confusion: Some(3), ..props() };
    log_item_use(&mut log, &scroll, true, "Scroll", 0, &vec!["Orc".to_string(), "Goblin".to_string()]);
    assert_eq!(
        log.messages[1..].to_vec(),
        vec![
            "You use Scroll on Orc, dealing 20 hp".to_string(),
            "You use Scroll on Goblin, dealing 20 hp".to_string(),
            "You use Scroll on Orc, confusing them".to_string(),
            "You use Scroll on Goblin, confusing them".to_string(),
        ]
    );
    log_item_use(&mut log, &scroll, false, "Scroll", 0, &vec!["Orc".to_string()]);
    assert_eq!(log.messages.len(), 5);
    log_equip(&mut log, true, &vec!["Dagger".to_string()], "Longsword");
    assert_eq!(log.messages[5], "You unequip your Dagger");
    assert_eq!(log.messages[6], "You equip your Longsword");
    log_equip(&mut log, false, &vec!["Dagger".to_string()], "Longsword");
    assert_eq!(log.messages.len(), 7);
}

fn walker(entity: u64, is_player: bool) -> Mover {
    Mover { entity, is_player, loco: Some(LocomotionType::Ground), blockers: vec![], fighters: vec![1, 2] }
}

#[test]
fn a_single_cell_mover_moves_its_blocked_flag() {
    let mut m = TileMap::new(1, TileType::Floor, (5, 5));
    m.blocked[12] = true;
    let mut pos = Position { ps: vec![Point::new(2, 2)] };
    let out = try_move_entity(&mut m, &mut pos, &walker(3, false), Point::new(1, 0), true, GameMode::RL);
    assert!(out.moved);
    assert_eq!(out.attack, None);
    assert_eq!(pos.ps, vec![Point::new(3, 2)]);
    assert!(m.blocked[13]);
    assert!(!m.blocked[12]);
    assert_eq!(m.blocked.iter().filter(|b| **b).count(), 1);
}

#[test]
fn walkers_stop_at_blocked_cells_and_attack_fighters() {
    let mut m = TileMap::new(1, TileType::Floor, (5, 5));
    m.blocked[13] = true;
    m.tile_content[13] = vec![2];
    let mut pos = Position { ps: vec![Point::new(2, 2)] };
    let out = try_move_or_attack(&mut m, &mut pos, &walker(1, false), 13, true, GameMode::RL);
    assert!(!out.moved);
    assert_eq!(out.attack, Some(2));
    assert_eq!(pos.ps, vec![Point::new(2, 2)]);
    // the camera player of the simulation goes anywhere and never attacks
    let out = try_move_or_attack(&mut m, &mut pos, &walker(1, true), 13, true, GameMode::Sim);
    assert!(out.moved);
    assert_eq!(out.attack, None);
    assert_eq!(pos.ps, vec![Point::new(3, 2)]);
}

#[test]
fn swimmers_need_water() {
    let mut m = TileMap::new(1, TileType::Floor, (5, 5));
    m.tiles[13] = TileType::Water;
    let fish = Mover { entity: 4, is_player: false, loco: Some(LocomotionType::Water), blockers: vec![], fighters: vec![] };
    let mut pos = Position { ps: vec![Point::new(2, 2)] };
    assert!(!try_move_entity(&mut m, &mut pos, &fish, Point::new(0, 1), false, GameMode::RL).moved);
    assert!(try_move_entity(&mut m, &mut pos, &fish, Point::new(1, 0), false, GameMode::RL).moved);
    let rock = Mover { entity: 5, is_player: false, loco: None, blockers: vec![], fighters: vec![] };
    assert!(!try_move_entity(&mut m, &mut pos, &rock, Point::new(-1, 0), false, GameMode::RL).moved);
}

#[test]
fn indexing_lists_entities_and_blocks_cells() {
    let mut m = TileMap::new(1, TileType::Floor, (4, 4));
    let es = vec![
        Placed { id: 1, pos: Position { ps: vec![Point::new(1, 1)] }, blocks: true },
        Placed { id: 2, pos: Position { ps: vec![Point::new(1, 1), Point::new(2, 1)] }, blocks: false },
    ];
    run_map_indexing_system(&mut m, &es);
    assert_eq!(m.tile_content[5], vec![1, 2]);
    assert_eq!(m.tile_content[6], vec![2]);
    assert!(m.blocked[5]);
    assert!(!m.blocked[6]);
    assert!(m.tile_content[0].is_empty());
}

#[test]
fn fire_spreads_by_chance() {
    let mut partial = false;
    for _ in 0..100 {
        let mut m = TileMap::new(1, TileType::Grass, (3, 3));
        m.fire_turns[4] = 5;
        run_fire_system(&mut m, &vec![], true);
        assert_eq!(m.fire_turns[4], 4);
        let lit = m.fire_turns.iter().filter(|f| **f > 0).count() - 1;
        for i in 0..9 {
            assert!(m.fire_turns[i] == 0 || m.fire_turns[i] >= 4);
        }
        if lit < 8 {
            partial = true;
        }
    }
    assert!(partial);
}

#[test]
fn indexing_skips_cells_off_the_map() {
    let mut m = TileMap::new(1, TileType::Floor, (4, 4));
    let es = vec![Placed { id: 7, pos: Position { ps: vec![Point::new(-1, 0), Point::new(0, 0), Point::new(4, 1)] }, blocks: true }];
    run_map_indexing_system(&mut m, &es);
    assert_eq!(m.tile_content[0], vec![7]);
    assert!(m.blocked[0]);
    assert_eq!(m.tile_content.iter().filter(|c| !c.is_empty()).count(), 1);
    assert_eq!(m.blocked.iter().filter(|b| **b).count(), 1);
}

#[test]
fn remembered_dry_tiles_anywhere_are_ignored_by_fishing() {
    let m = river_map();
    let far = m.tiles.len() + 40;
    let known = vec![(0, TileType::Grass), (far, TileType::Floor), (m.xy_idx(2, 3), TileType::Water)];
    assert_eq!(water_edges(&m, &known), vec![Point::new(2, 2)]);
}
