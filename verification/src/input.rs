use vstd::prelude::*;
use crate::effects::EffectType;
use crate::engine::GameMode;
use crate::geometry::{dir_to_point, is_direction, spec_dir_delta, Point};
use crate::map::{EntityId, TileMap};
use crate::runstate::RunState;

verus! {

/// The keys the game reacts to; every other key is `Other`.
#[derive(Clone, Copy, PartialEq, Eq, Structural, Debug)]
pub enum Key {
    Left,
    Right,
    Up,
    Down,
    Y,
    U,
    N,
    B,
    G,
    X,
    R,
    F,
    I,
    W,
    Escape,
    Period,
    Other,
}

/// What the player asked for.
#[derive(Clone, Copy, PartialEq, Eq, Structural, Debug)]
pub enum Command {
    NoOp,
    Move { dir: i32 },
    ShowInventory,
    Wait,
    Escape,
    Get,
    Explore,
    RevealMap,
    Fireball,
    UseStairs,
}

/// The command of each key: arrows and the y/u/b/n keys move in the
/// keypad directions, the other letters name their commands.
pub open spec fn spec_map_keys(key: Option<Key>) -> Command {
    match key {
        None => Command::NoOp,
        Some(k) => match k {
            Key::Left => Command::Move { dir: 4 },
            Key::Right => Command::Move { dir: 6 },
            Key::Up => Command::Move { dir: 8 },
            Key::Down => Command::Move { dir: 2 },
            Key::Y => Command::Move { dir: 7 },
            Key::U => Command::Move { dir: 9 },
            Key::N => Command::Move { dir: 3 },
            Key::B => Command::Move { dir: 1 },
            Key::G => Command::Get,
            Key::X => Command::Explore,
            Key::R => Command::RevealMap,
            Key::F => Command::Fireball,
            Key::I => Command::ShowInventory,
            Key::W => Command::Wait,
            Key::Escape => Command::Escape,
            Key::Period => Command::UseStairs,
            Key::Other => Command::NoOp,
        },
    }
}

/// The command that a key press (or no key) asks for.
pub fn map_keys(key: Option<Key>) -> (c: Command)
    ensures
        c == spec_map_keys(key),
{
    match key {
        None => Command::NoOp,
        Some(k) => match k {
            Key::Left => Command::Move { dir: 4 },
            Key::Right => Command::Move { dir: 6 },
            Key::Up => Command::Move { dir: 8 },
            Key::Down => Command::Move { dir: 2 },
            Key::Y => Command::Move { dir: 7 },
            Key::U => Command::Move { dir: 9 },
            Key::N => Command::Move { dir: 3 },
            Key::B => Command::Move { dir: 1 },
            Key::G => Command::Get,
            Key::X => Command::Explore,
            Key::R => Command::RevealMap,
            Key::F => Command::Fireball,
            Key::I => Command::ShowInventory,
            Key::W => Command::Wait,
            Key::Escape => Command::Escape,
            Key::Period => Command::UseStairs,
            Key::Other => Command::NoOp,
        },
    }
}

/// The commands each mode allows: the roguelike allows all; the simulation
/// allows only doing nothing, moving the camera, waiting and leaving.
pub open spec fn spec_can_use_command(gamemode: GameMode, command: Command) -> bool {
    match gamemode {
        GameMode::RL => true,
        _ => match command {
            Command::NoOp | Command::Move { .. } | Command::Wait | Command::Escape => true,
            _ => false,
        },
    }
}

/// Whether `command` may be used in `gamemode`.
pub fn can_use_command(gamemode: GameMode, command: Command) -> (r: bool)
    requires
        gamemode != GameMode::NotSelected,
    ensures
        r == spec_can_use_command(gamemode, command),
{
    match gamemode {
        GameMode::Sim => match command {
            Command::NoOp => true,
            Command::Move { .. } => true,
            Command::ShowInventory => false,
            Command::Wait => true,
            Command::Escape => true,
            Command::Get => false,
            Command::Explore => false,
            Command::RevealMap => false,
            Command::Fireball => false,
            Command::UseStairs => false,
        },
        _ => match command {
            Command::NoOp => true,
            Command::Move { .. } => true,
            Command::ShowInventory => true,
            Command::Wait => true,
            Command::Escape => true,
            Command::Get => true,
            Command::Explore => true,
            Command::RevealMap => true,
            Command::Fireball => true,
            Command::UseStairs => true,
        },
    }
}

/// What the world looks like around the player when a command runs.
pub struct CommandContext {
    /// The player's cell.
    pub player_pos: Point,
    /// The items lying on the player's cell, in the order they lie there.
    pub items_here: Vec<EntityId>,
    /// Whether the player stands on stairs down.
    pub on_stairs: bool,
}

/// What a command does: the state it leads to, the effects it queues on
/// behalf of the player, and whether it reveals the map or tells the
/// player that there are no stairs.
pub struct CommandOutcome {
    pub state: RunState,
    pub effects: Vec<EffectType>,
    pub reveal_map: bool,
    pub no_stairs_message: bool,
}

/// The cell one step from the player in keypad direction `dir`.
pub open spec fn move_target(map: &TileMap, from: Point, dir: i32) -> int {
    let d = spec_dir_delta(dir).unwrap();
    map.spec_xy_idx(from.x + d.0, from.y + d.1)
}

/// A pick-up effect for each item.
pub open spec fn spec_pick_ups(items: Seq<EntityId>) -> Seq<EffectType> {
    Seq::new(items.len(), |i: int| EffectType::PickUp { entity: items[i] })
}

/// The player is inside the map's border: every cell around them lies on
/// the map.
pub open spec fn player_inside(map: &TileMap, p: Point) -> bool {
    &&& -1_000_000_000 <= p.x <= 1_000_000_000
    &&& -1_000_000_000 <= p.y <= 1_000_000_000
    &&& map.spec_in_bounds(p.x - 1, p.y - 1)
    &&& map.spec_in_bounds(p.x + 1, p.y + 1)
}

/// What each command leads to.
pub open spec fn spec_execute(
    command: Command,
    map: &TileMap,
    ctx: &CommandContext,
) -> (RunState, Seq<EffectType>, bool, bool) {
    match command {
        Command::NoOp => (RunState::AwaitingInput, seq![], false, false),
        Command::Move { dir } => (
            RunState::PlayerTurn,
            seq![EffectType::MoveOrAttack { tile_idx: move_target(map, ctx.player_pos, dir) as usize }],
            false,
            false,
        ),
        Command::ShowInventory => (RunState::ShowInventory, seq![], false, false),
        Command::Wait => (RunState::PlayerTurn, seq![EffectType::Wait {  }], false, false),
        Command::Escape => (RunState::EscPressed, seq![], false, false),
        Command::Get => (RunState::PlayerTurn, spec_pick_ups(ctx.items_here@), false, false),
        Command::Explore => (RunState::PlayerTurn, seq![EffectType::Explore {  }], false, false),
        Command::RevealMap => (RunState::PlayerTurn, seq![], true, false),
        Command::Fireball => (RunState::AwaitingInput, seq![], false, false),
        Command::UseStairs => if ctx.on_stairs {
            (RunState::NextLevel, seq![], false, false)
        } else {
            (RunState::AwaitingInput, seq![], false, true)
        },
    }
}

/// The outcome of a command given by the player.
pub fn execute(command: Command, map: &TileMap, ctx: &CommandContext) -> (o: CommandOutcome)
    requires
        map.wf(),
        command is Move ==> player_inside(map, ctx.player_pos),
        command is Move ==> is_direction(command->dir),
    ensures
        o.state == spec_execute(command, map, ctx).0,
        o.effects@ == spec_execute(command, map, ctx).1,
        o.reveal_map == spec_execute(command, map, ctx).2,
        o.no_stairs_message == spec_execute(command, map, ctx).3,
{
    let mut effects: Vec<EffectType> = Vec::new();
    let mut reveal_map = false;
    let mut no_stairs_message = false;
    let state = match command {
        Command::NoOp => RunState::AwaitingInput,
        Command::Move { dir } => {
            let target = dir_to_point(ctx.player_pos, dir, 1);
            let tile_idx = map.point_idx(target);
            effects.push(EffectType::MoveOrAttack { tile_idx });
            RunState::PlayerTurn
        },
        Command::ShowInventory => RunState::ShowInventory,
        Command::Wait => {
            effects.push(EffectType::Wait {  });
            RunState::PlayerTurn
        },
        Command::Escape => RunState::EscPressed,
        Command::Get => {
            let mut i: usize = 0;
            while i < ctx.items_here.len()
                invariant
                    i <= ctx.items_here.len(),
                    effects@ == spec_pick_ups(ctx.items_here@.take(i as int)),
                decreases ctx.items_here.len() - i,
            {
                effects.push(EffectType::PickUp { entity: ctx.items_here[i] });
                assert(effects@ =~= spec_pick_ups(ctx.items_here@.take(i + 1)));
                i = i + 1;
            }
            assert(ctx.items_here@.take(ctx.items_here.len() as int) =~= ctx.items_here@);
            RunState::PlayerTurn
        },
        Command::Explore => {
            effects.push(EffectType::Explore {  });
            RunState::PlayerTurn
        },
        Command::RevealMap => {
            reveal_map = true;
            RunState::PlayerTurn
        },
        Command::Fireball => RunState::AwaitingInput,
        Command::UseStairs => {
            if ctx.on_stairs {
                RunState::NextLevel
            } else {
                no_stairs_message = true;
                RunState::AwaitingInput
            }
        },
    };
    proof {
        assert(effects@ =~= spec_execute(command, map, ctx).1);
    }
    CommandOutcome { state, effects, reveal_map, no_stairs_message }
}

/// The outcome of a key press: the command it names runs when the mode
/// allows it; otherwise the game keeps waiting for input.
pub fn handle_input(
    key: Option<Key>,
    mode: GameMode,
    map: &TileMap,
    ctx: &CommandContext,
) -> (o: CommandOutcome)
    requires
        mode != GameMode::NotSelected,
        map.wf(),
        spec_map_keys(key) is Move ==> player_inside(map, ctx.player_pos),
    ensures
        spec_can_use_command(mode, spec_map_keys(key)) ==> {
            &&& o.state == spec_execute(spec_map_keys(key), map, ctx).0
            &&& o.effects@ == spec_execute(spec_map_keys(key), map, ctx).1
            &&& o.reveal_map == spec_execute(spec_map_keys(key), map, ctx).2
            &&& o.no_stairs_message == spec_execute(spec_map_keys(key), map, ctx).3
        },
        !spec_can_use_command(mode, spec_map_keys(key)) ==> {
            &&& o.state == RunState::AwaitingInput
            &&& o.effects@.len() == 0
            &&& !o.reveal_map
            &&& !o.no_stairs_message
        },
{
    let command = map_keys(key);
    if can_use_command(mode, command) {
        execute(command, map, ctx)
    } else {
        CommandOutcome {
            state: RunState::AwaitingInput,
            effects: Vec::new(),
            reveal_map: false,
            no_stairs_message: false,
        }
    }
}

/// In the simulation the player is only a camera: no key there opens the
/// inventory, picks up, explores, reveals the map, casts or takes stairs,
/// so no key there queues anything but a move or a wait.
pub proof fn lemma_sim_commands_are_camera_moves(key: Option<Key>)
    ensures
        spec_can_use_command(GameMode::Sim, spec_map_keys(key)) ==> {
            let c = spec_map_keys(key);
            c is NoOp || c is Move || c is Wait || c is Escape
        },
{
}

/// Every movement key names one of the eight keypad directions.
pub proof fn lemma_move_keys_are_directions(key: Option<Key>)
    ensures
        spec_map_keys(key) is Move ==> is_direction(spec_map_keys(key)->dir),
{
}

/// The player can always leave a game for the main menu: in either mode
/// the escape key is allowed and leads to the escape state, whose next
/// frame shows the main menu.
pub proof fn lemma_escape_reaches_menu(mode: GameMode, map: &TileMap, ctx: &CommandContext)
    requires
        mode != GameMode::NotSelected,
    ensures
        spec_can_use_command(mode, spec_map_keys(Some(Key::Escape))),
        spec_execute(spec_map_keys(Some(Key::Escape)), map, ctx).0 == RunState::EscPressed,
        crate::runstate::spec_tick(RunState::EscPressed, crate::runstate::FrameInput::Nothing).0 is MainMenu,
{
}

/// Exploring is what the explore command, and only it, asks for: it
/// queues exactly one exploration and passes the turn to the world, and
/// no other command queues one. The roguelike takes it from the X key.
pub proof fn lemma_explore_queues_exploration(command: Command, map: &TileMap, ctx: &CommandContext)
    ensures
        spec_execute(command, map, ctx).1.contains(EffectType::Explore {  }) <==> command == Command::Explore,
        command == Command::Explore ==> {
            &&& spec_execute(command, map, ctx).0 == RunState::PlayerTurn
            &&& spec_execute(command, map, ctx).1.len() == 1
            &&& !spec_execute(command, map, ctx).2
        },
        spec_map_keys(Some(Key::X)) == Command::Explore,
        spec_can_use_command(GameMode::RL, Command::Explore),
{
    let effects = spec_execute(command, map, ctx).1;
    if command == Command::Explore {
        assert(effects[0] == EffectType::Explore {  });
    } else if let Command::Get = command {
        if effects.contains(EffectType::Explore {  }) {
            let i = choose|i: int| 0 <= i < effects.len() && effects[i] == EffectType::Explore {  };
            assert(effects[i] == EffectType::PickUp { entity: ctx.items_here@[i] });
        }
    } else if effects.contains(EffectType::Explore {  }) {
        let i = choose|i: int| 0 <= i < effects.len() && effects[i] == EffectType::Explore {  };
        assert(effects[i] != EffectType::Explore {  });
    }
}

} // verus!
