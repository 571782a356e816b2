use engine::effects::{
    get_effected_entities, get_effected_tiles, target_applicator, EffectHandler, EffectQueue,
    EffectSpawner, EffectType, Targets,
};
use engine::engine::{
    get_settings, name_message, BuilderKind, CameraChange, Engine, GameLog, GameMode, GameSystem,
    LevelEntity, RenderOrder,
};
use engine::geometry::Point;
use engine::input::{can_use_command, execute, handle_input, map_keys, Command, CommandContext, Key};
use engine::map::{TileMap, TileType};
use engine::components::Position;
use engine::runstate::{
    shows_world, tick, FrameInput, GameOverResult, ItemActionSelection, ItemMenuResult,
    MainMenuResult, MainMenuSelection, RunState, TickAction,
};

#[test]
fn player_and_ai_turns_alternate() {
    let (next, actions) = tick(RunState::PlayerTurn, FrameInput::Nothing);
    assert_eq!(next, RunState::AiTurn);
    assert_eq!(actions, vec![TickAction::RunSystems { player_turn: true, ai_turn: false }]);
    let (next, actions) = tick(RunState::AiTurn, FrameInput::Nothing);
    assert_eq!(next, RunState::AwaitingInput);
    assert_eq!(
        actions,
        vec![TickAction::AdvanceTurn, TickAction::RunSystems { player_turn: false, ai_turn: true }]
    );
}

#[test]
fn pre_run_runs_the_systems_once() {
    let (next, actions) = tick(RunState::PreRun, FrameInput::Nothing);
    assert_eq!(next, RunState::AwaitingInput);
    assert_eq!(actions, vec![TickAction::RunSystems { player_turn: false, ai_turn: false }]);
}

#[test]
fn awaiting_input_follows_the_command() {
    let (next, actions) = tick(RunState::AwaitingInput, FrameInput::Command { next: RunState::PlayerTurn });
    assert_eq!(next, RunState::PlayerTurn);
    assert!(actions.is_empty());
}

#[test]
fn inventory_menu() {
    let s = RunState::ShowInventory;
    let none = FrameInput::Inventory { result: ItemMenuResult::NoResponse, item: None };
    assert_eq!(tick(s, none).0, s);
    let cancel = FrameInput::Inventory { result: ItemMenuResult::Cancel, item: None };
    assert_eq!(tick(s, cancel).0, RunState::AwaitingInput);
    let pick = FrameInput::Inventory { result: ItemMenuResult::Selected, item: Some(42) };
    assert_eq!(tick(s, pick).0, RunState::ShowItemActions { item: 42 });
}

#[test]
fn item_actions_end_in_the_players_turn() {
    let s = RunState::ShowItemActions { item: 5 };
    let used = FrameInput::ItemAction { selection: ItemActionSelection::Used, ranged: None };
    assert_eq!(
        tick(s, used),
        (RunState::PlayerTurn, vec![TickAction::WantsToUseItem { item: 5, target: None }])
    );
    let ranged = FrameInput::ItemAction { selection: ItemActionSelection::Used, ranged: Some(6) };
    assert_eq!(tick(s, ranged), (RunState::ShowTargeting { range: 6, item: 5 }, vec![]));
    let dropped = FrameInput::ItemAction { selection: ItemActionSelection::Dropped, ranged: None };
    assert_eq!(tick(s, dropped), (RunState::PlayerTurn, vec![TickAction::WantsToDropItem { item: 5 }]));
    let off = FrameInput::ItemAction { selection: ItemActionSelection::Unequipped, ranged: None };
    assert_eq!(tick(s, off), (RunState::PlayerTurn, vec![TickAction::WantsToUnequipItem { item: 5 }]));
    let cancel = FrameInput::ItemAction { selection: ItemActionSelection::Cancel, ranged: None };
    assert_eq!(tick(s, cancel), (RunState::ShowInventory, vec![]));
    let nothing = FrameInput::ItemAction { selection: ItemActionSelection::NoSelection, ranged: None };
    assert_eq!(tick(s, nothing), (s, vec![]));
}

#[test]
fn targeting() {
    let s = RunState::ShowTargeting { range: 6, item: 9 };
    let chosen = FrameInput::Target { result: ItemMenuResult::Selected, target: Some(Point::new(3, 4)) };
    assert_eq!(
        tick(s, chosen),
        (RunState::PlayerTurn, vec![TickAction::WantsToUseItem { item: 9, target: Some(Point::new(3, 4)) }])
    );
    let cancel = FrameInput::Target { result: ItemMenuResult::Cancel, target: None };
    assert_eq!(tick(s, cancel).0, RunState::AwaitingInput);
}

#[test]
fn main_menu_and_game_over() {
    let s = RunState::MainMenu { menu_selection: MainMenuSelection::Roguelike };
    let browse = FrameInput::Menu { result: MainMenuResult::NoSelection { selected: MainMenuSelection::Simulator } };
    assert_eq!(tick(s, browse).0, RunState::MainMenu { menu_selection: MainMenuSelection::Simulator });
    let start = FrameInput::Menu { result: MainMenuResult::Selection { selected: MainMenuSelection::Simulator } };
    assert_eq!(
        tick(s, start),
        (RunState::MapGenAnimation, vec![TickAction::ResetEngine { selection: MainMenuSelection::Simulator }])
    );
    let exit = FrameInput::Menu { result: MainMenuResult::Selection { selected: MainMenuSelection::Exit } };
    assert_eq!(tick(s, exit), (s, vec![TickAction::Exit]));
    let quit = FrameInput::GameOverMenu { result: GameOverResult::QuitToMenu };
    assert_eq!(
        tick(RunState::GameOver, quit).0,
        RunState::MainMenu { menu_selection: MainMenuSelection::Roguelike }
    );
    assert_eq!(
        tick(RunState::EscPressed, FrameInput::Nothing).0,
        RunState::MainMenu { menu_selection: MainMenuSelection::Roguelike }
    );
    assert_eq!(tick(RunState::NextLevel, FrameInput::Nothing), (RunState::PreRun, vec![TickAction::NextLevel]));
    assert_eq!(tick(RunState::MapGenAnimation, FrameInput::Nothing).0, RunState::PreRun);
}

#[test]
fn world_hidden_on_menus() {
    assert!(!shows_world(RunState::GameOver));
    assert!(!shows_world(RunState::EscPressed));
    assert!(!shows_world(RunState::MainMenu { menu_selection: MainMenuSelection::Exit }));
    assert!(shows_world(RunState::AwaitingInput));
    assert!(shows_world(RunState::ShowInventory));
}

#[test]
fn keys_map_to_commands() {
    assert_eq!(map_keys(None), Command::NoOp);
    assert_eq!(map_keys(Some(Key::Left)), Command::Move { dir: 4 });
    assert_eq!(map_keys(Some(Key::Right)), Command::Move { dir: 6 });
    assert_eq!(map_keys(Some(Key::Up)), Command::Move { dir: 8 });
    assert_eq!(map_keys(Some(Key::Down)), Command::Move { dir: 2 });
    assert_eq!(map_keys(Some(Key::Y)), Command::Move { dir: 7 });
    assert_eq!(map_keys(Some(Key::U)), Command::Move { dir: 9 });
    assert_eq!(map_keys(Some(Key::N)), Command::Move { dir: 3 });
    assert_eq!(map_keys(Some(Key::B)), Command::Move { dir: 1 });
    assert_eq!(map_keys(Some(Key::G)), Command::Get);
    assert_eq!(map_keys(Some(Key::X)), Command::Explore);
    assert_eq!(map_keys(Some(Key::R)), Command::RevealMap);
    assert_eq!(map_keys(Some(Key::F)), Command::Fireball);
    assert_eq!(map_keys(Some(Key::I)), Command::ShowInventory);
    assert_eq!(map_keys(Some(Key::W)), Command::Wait);
    assert_eq!(map_keys(Some(Key::Escape)), Command::Escape);
    assert_eq!(map_keys(Some(Key::Period)), Command::UseStairs);
    assert_eq!(map_keys(Some(Key::Other)), Command::NoOp);
}

#[test]
fn the_simulation_allows_only_camera_commands() {
    let all = [
        Command::NoOp, Command::Move { dir: 2 }, Command::ShowInventory, Command::Wait,
        Command::Escape, Command::Get, Command::Explore, Command::RevealMap, Command::Fireball,
        Command::UseStairs,
    ];
    for c in all.iter() {
        assert!(can_use_command(GameMode::RL, *c));
        let camera = matches!(c, Command::NoOp | Command::Move { .. } | Command::Wait | Command::Escape);
        assert_eq!(can_use_command(GameMode::Sim, *c), camera);
    }
}

fn context(items: Vec<u64>, on_stairs: bool) -> CommandContext {
    CommandContext { player_pos: Point::new(5, 5), items_here: items, on_stairs }
}

#[test]
fn commands_queue_the_players_effects() {
    let m = TileMap::new(1, TileType::Floor, (10, 10));
    let o = execute(Command::Move { dir: 6 }, &m, &context(vec![], false));
    assert_eq!(o.state, RunState::PlayerTurn);
    assert_eq!(o.effects, vec![EffectType::MoveOrAttack { tile_idx: 56 }]);
    let o = execute(Command::Get, &m, &context(vec![3, 4], false));
    assert_eq!(o.effects, vec![EffectType::PickUp { entity: 3 }, EffectType::PickUp { entity: 4 }]);
    let o = execute(Command::Wait, &m, &context(vec![], false));
    assert_eq!(o.effects, vec![EffectType::Wait {}]);
    let o = execute(Command::RevealMap, &m, &context(vec![], false));
    assert!(o.reveal_map);
    assert_eq!(o.state, RunState::PlayerTurn);
    let o = execute(Command::UseStairs, &m, &context(vec![], true));
    assert_eq!(o.state, RunState::NextLevel);
    let o = execute(Command::UseStairs, &m, &context(vec![], false));
    assert_eq!(o.state, RunState::AwaitingInput);
    assert!(o.no_stairs_message);
    let o = execute(Command::Escape, &m, &context(vec![], false));
    assert_eq!(o.state, RunState::EscPressed);
    let o = execute(Command::ShowInventory, &m, &context(vec![], false));
    assert_eq!(o.state, RunState::ShowInventory);
}

#[test]
fn refused_keys_keep_waiting() {
    let m = TileMap::new(1, TileType::Floor, (10, 10));
    let o = handle_input(Some(Key::G), GameMode::Sim, &m, &context(vec![3], false));
    assert_eq!(o.state, RunState::AwaitingInput);
    assert!(o.effects.is_empty());
    let o = handle_input(Some(Key::G), GameMode::RL, &m, &context(vec![3], false));
    assert_eq!(o.state, RunState::PlayerTurn);
    assert_eq!(o.effects, vec![EffectType::PickUp { entity: 3 }]);
    let o = handle_input(Some(Key::Up), GameMode::Sim, &m, &context(vec![], false));
    assert_eq!(o.effects, vec![EffectType::MoveOrAttack { tile_idx: 45 }]);
}

#[test]
fn settings_per_mode() {
    let sim = get_settings(GameMode::Sim);
    assert_eq!(sim.mapsize, (200, 80));
    assert!(!sim.follow_player && !sim.use_player_los);
    let rl = get_settings(GameMode::RL);
    assert_eq!(rl.mapsize, (80, 40));
    assert!(rl.follow_player && rl.use_player_los);
}

#[test]
fn render_order_layers() {
    assert!(RenderOrder::Items < RenderOrder::NPC);
    assert!(RenderOrder::NPC < RenderOrder::Player);
    assert!(RenderOrder::Player < RenderOrder::Particle);
}

#[test]
fn systems_of_each_phase() {
    let p = Engine::systems_to_run(true, false);
    assert_eq!(p[0], GameSystem::Fire);
    assert!(!p.contains(&GameSystem::MonsterAi));
    let a = Engine::systems_to_run(false, true);
    assert!(!a.contains(&GameSystem::Fire));
    assert_eq!(a[2], GameSystem::Pathfinding);
    assert_eq!(*a.last().unwrap(), GameSystem::MapIndexing);
    assert_eq!(Engine::systems_to_run(false, false).len(), 13);
    assert_eq!(Engine::systems_to_run(true, true).len(), 19);
}

#[test]
fn level_change_keeps_the_player_and_its_items() {
    let es = vec![
        LevelEntity { id: 1, is_player: true, in_backpack_of: None, equipped_by: None },
        LevelEntity { id: 2, is_player: false, in_backpack_of: Some(1), equipped_by: None },
        LevelEntity { id: 3, is_player: false, in_backpack_of: None, equipped_by: Some(1) },
        LevelEntity { id: 4, is_player: false, in_backpack_of: Some(9), equipped_by: None },
        LevelEntity { id: 5, is_player: false, in_backpack_of: None, equipped_by: None },
        LevelEntity { id: 6, is_player: false, in_backpack_of: Some(9), equipped_by: Some(1) },
    ];
    assert_eq!(Engine::entities_to_delete_on_level_change(&es, 1), vec![4, 5, 6]);
}

#[test]
fn builders_per_mode() {
    assert_eq!(Engine::builder_for(GameMode::Sim, 3), BuilderKind::Village);
    assert_eq!(Engine::builder_for(GameMode::RL, 3), BuilderKind::DrunkardsBombingRun);
    assert_eq!(Engine::builder_for(GameMode::NotSelected, 1), BuilderKind::BspDungeon);
    assert_eq!(Engine::random_builder(2), BuilderKind::BspInterior);
    assert_eq!(Engine::random_builder(3), BuilderKind::CellularAutomata);
    assert_eq!(Engine::random_builder(4), BuilderKind::DrunkardsBombingRun);
    assert_eq!(Engine::random_builder(5), BuilderKind::BspFarm);
    assert_eq!(Engine::random_builder(0), BuilderKind::SimpleMap);
}

#[test]
fn camera_marker_follows_the_mode() {
    assert_eq!(Engine::camera_change(GameMode::Sim, true), CameraChange::Add);
    assert_eq!(Engine::camera_change(GameMode::Sim, false), CameraChange::Keep);
    assert_eq!(Engine::camera_change(GameMode::RL, true), CameraChange::Remove);
    assert_eq!(Engine::camera_change(GameMode::NotSelected, false), CameraChange::Remove);
}

#[test]
fn descending_logs_and_deepens() {
    let mut log = GameLog::new();
    log.log("before".to_string());
    assert_eq!(Engine::next_level(3, &mut log), 4);
    assert_eq!(log.messages, vec!["before".to_string(), "You descend in the staircase".to_string()]);
    assert_eq!(name_message("You pick up the ", "Dagger"), "You pick up the Dagger");
}

#[test]
fn effect_queue_is_first_in_first_out() {
    let mut q = EffectQueue::new();
    assert_eq!(q.len(), 0);
    assert!(q.pop_effect().is_none());
    q.add_effect(Some(1), EffectType::Wait {});
    q.add_effect(None, EffectType::Explore {});
    assert_eq!(q.len(), 2);
    assert_eq!(q.pop_effect(), Some(EffectSpawner { creator: Some(1), effect_type: EffectType::Wait {} }));
    q.add_effect(Some(2), EffectType::Delete { entity: 8 });
    assert_eq!(q.pop_effect(), Some(EffectSpawner { creator: None, effect_type: EffectType::Explore {} }));
    assert_eq!(q.pop_effect().unwrap().effect_type, EffectType::Delete { entity: 8 });
    assert!(q.pop_effect().is_none());
}

#[test]
fn each_effect_has_its_handler() {
    let h = |e: EffectType| target_applicator(&EffectSpawner { creator: None, effect_type: e });
    let single = Targets::Single { target: 1 };
    assert_eq!(h(EffectType::Damage { amount: 3, target: single.clone() }), EffectHandler::InflictDamage);
    assert_eq!(h(EffectType::Confusion { turns: 3, target: single.clone() }), EffectHandler::InflictConfusion);
    assert_eq!(h(EffectType::Fire { turns: 3, target: single.clone() }), EffectHandler::InflictFire);
    assert_eq!(h(EffectType::Heal { amount: 3, target: single }), EffectHandler::Heal);
    assert_eq!(h(EffectType::PickUp { entity: 1 }), EffectHandler::PickUp);
    assert_eq!(h(EffectType::Drop { entity: 1 }), EffectHandler::DropItem);
    assert_eq!(h(EffectType::Explore {}), EffectHandler::Autoexplore);
    assert_eq!(h(EffectType::Move { tile_idx: 0 }), EffectHandler::Move);
    assert_eq!(h(EffectType::MoveOrAttack { tile_idx: 0 }), EffectHandler::MoveOrAttack);
    assert_eq!(h(EffectType::Wait {}), EffectHandler::SkipTurn);
    assert_eq!(h(EffectType::Delete { entity: 1 }), EffectHandler::Delete);
}

#[test]
fn effects_reach_entities_and_tiles() {
    let mut m = TileMap::new(1, TileType::Floor, (4, 4));
    m.tile_content[5] = vec![10, 11];
    m.tile_content[6] = vec![12];
    assert_eq!(get_effected_entities(&m, &Targets::Tile { tile_idx: 5 }), vec![10, 11]);
    assert_eq!(get_effected_entities(&m, &Targets::Tiles { tiles: vec![6, 5] }), vec![12, 10, 11]);
    assert_eq!(get_effected_entities(&m, &Targets::Single { target: 3 }), vec![3]);
    assert_eq!(get_effected_entities(&m, &Targets::Area { target: vec![4, 5] }), vec![4, 5]);
    assert_eq!(get_effected_tiles(&m, &Targets::Tile { tile_idx: 2 }, &vec![]), vec![2]);
    let positions = vec![Some(Position { ps: vec![Point::new(1, 1), Point::new(2, 1)] }), None];
    assert_eq!(get_effected_tiles(&m, &Targets::Area { target: vec![7, 8] }, &positions), vec![5, 6]);
}
