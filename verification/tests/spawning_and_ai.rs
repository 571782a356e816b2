use engine::ai::{
    chase_step, fish_catches, monster_action, order_effect, run_dissasemble_system, task_order,
    within_reach, Demolisher, Inputs, MonsterAction, Target, Task, TaskEffect, TaskOrder,
};
use engine::builders::{room_cells, village_trees, AernaBuilder, EntityPlan, Rect, VillageBuilder, MAPHEIGHT, MAPWIDTH};
use engine::components::Position;
use engine::effects::EffectType;
use engine::fish::{choose_fish_move, run_fish_ai, FishInfo};
use engine::geometry::Point;
use engine::map::{TileMap, TileType};
use engine::spawning::{
    plan_spawns, room_table, run_spawner_system, spawn_location, spawn_region, SpawnRequest,
    Spawnable, SpawnerInfo, SpawnerType, WeightedTable,
};

#[test]
fn weighted_table_picks_by_share() {
    let t = WeightedTable::new().add(Spawnable::Goblin, 3).add(Spawnable::Orc, 0).add(Spawnable::Dagger, 2);
    assert_eq!(t.total_weight, 5);
    assert_eq!(t.entries, vec![(Spawnable::Goblin, 3), (Spawnable::Dagger, 2)]);
    assert_eq!(t.pick(0), Some(Spawnable::Goblin));
    assert_eq!(t.pick(2), Some(Spawnable::Goblin));
    assert_eq!(t.pick(3), Some(Spawnable::Dagger));
    assert_eq!(t.pick(4), Some(Spawnable::Dagger));
    assert_eq!(t.pick(5), None);
}

#[test]
fn rolling_an_empty_table_gives_nothing() {
    let mut rng = rltk::RandomNumberGenerator::seeded(7);
    assert_eq!(WeightedTable::new().roll(&mut rng), None);
    let t = WeightedTable::new().add(Spawnable::Shield, 4);
    for _ in 0..20 {
        assert_eq!(t.roll(&mut rng), Some(Spawnable::Shield));
    }
}

#[test]
fn room_table_by_depth() {
    let t = room_table(1);
    assert_eq!(
        t.entries,
        vec![
            (Spawnable::Goblin, 10),
            (Spawnable::Orc, 2),
            (Spawnable::HealthPotion, 7),
            (Spawnable::FireballScroll, 3),
            (Spawnable::ConfusionScroll, 3),
            (Spawnable::MagicMissileScroll, 4),
            (Spawnable::Dagger, 2),
            (Spawnable::Shield, 2),
        ]
    );
    assert_eq!(t.total_weight, 33);
    let deep = room_table(3);
    assert!(deep.entries.contains(&(Spawnable::Longsword, 2)));
    assert!(deep.entries.contains(&(Spawnable::TowerShield, 2)));
}

#[test]
fn planned_spawns_take_distinct_cells() {
    let table = WeightedTable::new().add(Spawnable::Goblin, 1).add(Spawnable::Orc, 1);
    let area = vec![10, 11, 12, 13];
    let plan = plan_spawns(&area, &table, 3, &vec![2, 1, 2], &vec![0, 1, 1]);
    assert_eq!(plan, vec![(11, Spawnable::Goblin), (10, Spawnable::Orc), (13, Spawnable::Orc)]);
}

#[test]
fn region_spawns_stay_in_the_region() {
    let area: Vec<usize> = (100..130).collect();
    for depth in [1, 2, 5] {
        for _ in 0..20 {
            let plan = spawn_region(&area, depth);
            assert!(plan.len() <= area.len());
            let mut cells: Vec<usize> = plan.iter().map(|(c, _)| *c).collect();
            assert!(cells.iter().all(|c| area.contains(c)));
            cells.sort();
            cells.dedup();
            assert_eq!(cells.len(), plan.len());
        }
    }
    assert!(spawn_region(&vec![], 1).is_empty());
}

#[test]
fn spawn_locations_on_the_full_map() {
    assert_eq!(spawn_location(405), Point::new(5, 2));
    assert_eq!(spawn_location(0), Point::new(0, 0));
}

#[test]
fn spawners_spawn_on_their_turns() {
    let s = vec![
        SpawnerInfo { pos: Point::new(4, 10), rate: 10, faction: 0, typ: SpawnerType::Orc },
        SpawnerInfo { pos: Point::new(7, 2), rate: 3, faction: 1, typ: SpawnerType::Fish },
    ];
    assert_eq!(
        run_spawner_system(&s, 30),
        vec![
            SpawnRequest { at: Point::new(4, 11), faction: 0, typ: SpawnerType::Orc },
            SpawnRequest { at: Point::new(7, 3), faction: 1, typ: SpawnerType::Fish },
        ]
    );
    assert_eq!(run_spawner_system(&s, 9), vec![SpawnRequest { at: Point::new(7, 3), faction: 1, typ: SpawnerType::Fish }]);
    assert!(run_spawner_system(&s, 7).is_empty());
}

fn pond() -> TileMap {
    let mut m = TileMap::new(1, TileType::Floor, (6, 5));
    for y in 1..4 {
        for x in 2..4 {
            let i = m.xy_idx(x, y);
            m.tiles[i] = TileType::Water;
        }
    }
    m
}

#[test]
fn fish_swim_east_into_water() {
    let m = pond();
    assert_eq!(choose_fish_move(&m, &vec![Point::new(1, 1), Point::new(2, 2)]), Some(m.xy_idx(2, 2)));
    assert_eq!(choose_fish_move(&m, &vec![Point::new(0, 0)]), None);
    let fish = vec![
        FishInfo { id: 1, pos: Position { ps: vec![Point::new(2, 2)] } },
        FishInfo { id: 2, pos: Position { ps: vec![Point::new(4, 2)] } },
        FishInfo { id: 3, pos: Position { ps: vec![Point::new(1, 2)] } },
    ];
    let t = run_fish_ai(&m, &fish);
    assert_eq!(t.at_edge, vec![2]);
    assert_eq!(t.moves.len(), 2);
    assert_eq!(t.moves[0].0, 1);
    let east_of_first = [m.xy_idx(3, 1), m.xy_idx(3, 2), m.xy_idx(3, 3)];
    assert!(east_of_first.contains(&t.moves[0].1));
    assert_eq!(t.moves[1].0, 3);
    let east = [m.xy_idx(2, 1), m.xy_idx(2, 2), m.xy_idx(2, 3)];
    assert!(east.contains(&t.moves[1].1));
}

#[test]
fn reach_is_one_cell_diagonals_included() {
    assert!(within_reach(Point::new(3, 3), Point::new(4, 4)));
    assert!(within_reach(Point::new(3, 3), Point::new(3, 3)));
    assert!(!within_reach(Point::new(3, 3), Point::new(5, 3)));
}

#[test]
fn demolition_of_trees_leaves_logs() {
    let ds = vec![
        Demolisher { cells: vec![Point::new(5, 5)], target: Target::ENTITY(9), target_cell: Some(Point::new(6, 5)), target_is_tree: true },
        Demolisher { cells: vec![Point::new(5, 5)], target: Target::ENTITY(8), target_cell: Some(Point::new(9, 9)), target_is_tree: true },
        Demolisher { cells: vec![Point::new(1, 1)], target: Target::ENTITY(7), target_cell: Some(Point::new(1, 2)), target_is_tree: false },
        Demolisher { cells: vec![Point::new(1, 1)], target: Target::LOCATION(Point::new(1, 2)), target_cell: None, target_is_tree: false },
    ];
    let d = run_dissasemble_system(&ds);
    assert_eq!(d.destroyed, vec![9, 7]);
    assert_eq!(d.logs, vec![Point::new(6, 5)]);
}

#[test]
fn monsters_choose() {
    let seen = vec![Point::new(5, 5)];
    assert_eq!(monster_action(Some(2), &seen, Point::new(4, 4), Point::new(5, 5)), MonsterAction::Confused { turns_left: 1, cured: false });
    assert_eq!(monster_action(Some(1), &seen, Point::new(4, 4), Point::new(5, 5)), MonsterAction::Confused { turns_left: 0, cured: true });
    assert_eq!(monster_action(None, &vec![], Point::new(4, 4), Point::new(5, 5)), MonsterAction::Wait);
    assert_eq!(monster_action(None, &seen, Point::new(4, 4), Point::new(5, 5)), MonsterAction::Attack);
    assert_eq!(monster_action(None, &seen, Point::new(1, 1), Point::new(5, 5)), MonsterAction::Chase);
}

#[test]
fn chasing_steps_along_the_path() {
    let m = TileMap::new(1, TileType::Floor, (10, 10));
    let path = vec![m.xy_idx(2, 2), m.xy_idx(3, 3), m.xy_idx(4, 4)];
    assert_eq!(chase_step(&m, Point::new(2, 2), true, &path), Some(Point::new(1, 1)));
    assert_eq!(chase_step(&m, Point::new(2, 2), false, &path), None);
    assert_eq!(chase_step(&m, Point::new(2, 2), true, &vec![m.xy_idx(2, 2)]), None);
}

#[test]
fn fishers_catch_fish_in_adjacent_water() {
    let mut m = pond();
    let w = m.xy_idx(2, 1);
    m.tile_content[w] = vec![40, 41];
    let f = m.xy_idx(1, 1);
    m.tile_content[f] = vec![42];
    assert_eq!(fish_catches(&m, Point::new(1, 2), &vec![41, 42]), vec![41]);
}

#[test]
fn tasks_order_the_world() {
    let m = TileMap::new(1, TileType::Floor, (10, 10));
    assert_eq!(task_order(&m, Task::Fish, None, None), TaskOrder::Fish);
    assert_eq!(task_order(&m, Task::Explore, None, None), TaskOrder::Effect { tile_idx: 0, kind: TaskEffect::Explore });
    assert_eq!(
        task_order(&m, Task::MoveTo, Some(Target::ENTITY(3)), None),
        TaskOrder::MoveTowards { target: Target::ENTITY(3) }
    );
    assert_eq!(
        task_order(&m, Task::Attack, Some(Target::LOCATION(Point::new(2, 3))), None),
        TaskOrder::Effect { tile_idx: 32, kind: TaskEffect::MoveOrAttack }
    );
    assert_eq!(task_order(&m, Task::Attack, Some(Target::ENTITY(4)), None), TaskOrder::Nothing);
    assert_eq!(task_order(&m, Task::Destroy, Some(Target::ENTITY(4)), None), TaskOrder::Nothing);
    assert_eq!(order_effect(7, TaskEffect::MoveOrAttack), EffectType::MoveOrAttack { tile_idx: 7 });
    assert_eq!(order_effect(7, TaskEffect::Explore), EffectType::Explore {});
}

#[test]
fn target_points_and_distance_cells() {
    assert_eq!(Target::LOCATION(Point::new(1, 2)).get_point(None), Point::new(1, 2));
    assert_eq!(Target::ENTITY(3).get_point(Some(Point::new(4, 4))), Point::new(4, 4));
    assert_eq!(Target::ENTITY(3).get_point(None), Point::new(-1, -1));
    let m = TileMap::new(1, TileType::Floor, (10, 10));
    assert_eq!(Inputs::distance_cells(&m, Target::LOCATION(Point::new(1, 2)), &None), vec![21]);
    let big = Some(Position { ps: vec![Point::new(0, 0), Point::new(1, 0)] });
    assert_eq!(Inputs::distance_cells(&m, Target::ENTITY(5), &big), vec![0, 1]);
    assert_eq!(Inputs::distance_cells(&m, Target::ENTITY(5), &None), vec![0]);
}

#[test]
fn room_inside_cells() {
    let mut m = TileMap::new(1, TileType::Floor, (10, 10));
    let w = m.xy_idx(2, 2);
    m.tiles[w] = TileType::Wall;
    let r = Rect { x1: 1, y1: 1, x2: 4, y2: 4 };
    assert_eq!(room_cells(&m, &r), vec![m.xy_idx(3, 2), m.xy_idx(2, 3), m.xy_idx(3, 3)]);
    assert!(room_cells(&m, &Rect { x1: 1, y1: 1, x2: 2, y2: 5 }).is_empty());
}

#[test]
fn the_village_map() {
    let mut b = VillageBuilder::new(2);
    b.build_map();
    let m = &b.map;
    assert_eq!((m.width, m.height, m.depth), (MAPWIDTH, MAPHEIGHT, 2));
    assert_eq!(m.tiles[m.xy_idx(0, 5)], TileType::Wall);
    assert_eq!(m.tiles[m.xy_idx(10, 10)], TileType::Grass);
    assert_eq!(m.tiles[m.xy_idx(10, MAPHEIGHT - 5)], TileType::Water);
    assert_eq!(m.tiles[m.xy_idx(10, MAPHEIGHT - 10)], TileType::Grass);
    assert_eq!(b.starting_position, Point::new(MAPWIDTH / 2, MAPHEIGHT / 2));
    let plans = b.spawn_entities();
    assert!(plans.len() >= 33);
    for p in plans.iter() {
        if let EntityPlan::Tree { x, y } = p {
            assert!(*x >= 1 && *x < MAPWIDTH - 1 && *y >= 1 && *y < MAPHEIGHT / 2);
        }
    }
    let villagers = plans.iter().filter(|p| matches!(p, EntityPlan::Villager { .. })).count();
    assert_eq!(villagers, 20);
}

#[test]
fn the_arena() {
    let mut b = AernaBuilder::new(1);
    b.build_map();
    let m = &b.map;
    assert_eq!(m.tiles[m.xy_idx(0, 0)], TileType::Wall);
    assert_eq!(m.tiles[m.xy_idx(MAPWIDTH - 1, 3)], TileType::Wall);
    assert_eq!(m.tiles[m.xy_idx(5, 5)], TileType::Floor);
    assert_eq!(
        b.spawn_entities(),
        vec![
            EntityPlan::Spawner { x: 4, y: MAPHEIGHT / 2, faction: 0, typ: SpawnerType::Orc, rate: 10 },
            EntityPlan::Spawner { x: MAPWIDTH - 5, y: MAPHEIGHT / 2, faction: 1, typ: SpawnerType::Orc, rate: 10 },
        ]
    );
}

#[test]
fn rolls_reach_every_share_of_the_table() {
    let mut rng = rltk::RandomNumberGenerator::seeded(11);
    let t = WeightedTable::new().add(Spawnable::Goblin, 1).add(Spawnable::Orc, 1);
    let mut goblins = 0;
    let mut orcs = 0;
    for _ in 0..200 {
        match t.roll(&mut rng) {
            Some(Spawnable::Goblin) => goblins += 1,
            Some(Spawnable::Orc) => orcs += 1,
            other => panic!("unexpected roll {:?}", other),
        }
    }
    assert!(goblins > 0 && orcs > 0);
}

#[test]
fn fish_pick_among_their_water_cells() {
    let m = pond();
    let fish = vec![FishInfo { id: 1, pos: Position { ps: vec![Point::new(2, 2)] } }];
    let mut seen = std::collections::HashSet::new();
    for _ in 0..100 {
        let t = run_fish_ai(&m, &fish);
        seen.insert(t.moves[0].1);
    }
    assert!(seen.len() > 1);
    assert!(seen.iter().all(|i| [m.xy_idx(3, 1), m.xy_idx(3, 2), m.xy_idx(3, 3)].contains(i)));
}

#[test]
fn room_spawns_stay_on_the_rooms_floor() {
    let mut m = TileMap::new(1, TileType::Floor, (20, 20));
    let w = m.xy_idx(3, 3);
    m.tiles[w] = TileType::Wall;
    let room = Rect { x1: 1, y1: 1, x2: 8, y2: 8 };
    let cells = room_cells(&m, &room);
    for _ in 0..20 {
        let plan = engine::spawning::spawn_room(&m, &room, 2);
        assert!(plan.len() <= cells.len());
        assert!(plan.iter().all(|(c, _)| cells.contains(c)));
        assert!(plan.iter().all(|(c, _)| *c != w));
    }
}

#[test]
fn room_spawns_take_distinct_cells_and_table_things() {
    let m = TileMap::new(1, TileType::Floor, (20, 20));
    let room = Rect { x1: 1, y1: 1, x2: 6, y2: 6 };
    for _ in 0..20 {
        let plan = engine::spawning::spawn_room(&m, &room, 1);
        for a in 0..plan.len() {
            for b in a + 1..plan.len() {
                assert_ne!(plan[a].0, plan[b].0);
            }
            assert_ne!(plan[a].1, engine::spawning::Spawnable::Longsword);
            assert_ne!(plan[a].1, engine::spawning::Spawnable::TowerShield);
        }
        // Deep down the roll plus the depth bonus exceeds the 16 floor cells.
        let deep = engine::spawning::spawn_room(&m, &room, 30);
        assert_eq!(deep.len(), 16);
    }
}

#[test]
fn village_trees_grow_where_the_roll_is_below_35() {
    let trees = village_trees(5, 6, &vec![1, 50, 34, 35, 100, 10]);
    assert_eq!(
        trees,
        vec![
            EntityPlan::Tree { x: 1, y: 1 },
            EntityPlan::Tree { x: 3, y: 1 },
            EntityPlan::Tree { x: 3, y: 2 },
        ]
    );
    assert!(village_trees(5, 6, &vec![35; 6]).is_empty());
}

#[test]
fn negative_rates_spawn_every_so_many_turns() {
    let s = vec![SpawnerInfo { pos: Point::new(2, 2), rate: -4, faction: 3, typ: SpawnerType::Fish }];
    assert_eq!(run_spawner_system(&s, 8), vec![SpawnRequest { at: Point::new(2, 3), faction: 3, typ: SpawnerType::Fish }]);
    assert_eq!(run_spawner_system(&s, -12).len(), 1);
    assert!(run_spawner_system(&s, 6).is_empty());
}

#[test]
fn reach_works_for_far_apart_cells() {
    assert!(!within_reach(Point::new(i32::MAX, 0), Point::new(0, 0)));
    assert!(within_reach(Point::new(-1_000_000_000, 5), Point::new(-1_000_000_001, 6)));
}
