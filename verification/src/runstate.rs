use vstd::prelude::*;
use crate::geometry::Point;
use crate::map::EntityId;

verus! {

/// The entries of the main menu.
#[derive(Clone, Copy, PartialEq, Eq, Structural, Debug)]
pub enum MainMenuSelection {
    Roguelike,
    Simulator,
    OrcHalls,
    Exit,
}

/// Where the game is in its turn cycle or its menus.
#[derive(Clone, Copy, PartialEq, Eq, Structural, Debug)]
pub enum RunState {
    AwaitingInput,
    PreRun,
    PlayerTurn,
    AiTurn,
    ShowInventory,
    ShowItemActions { item: EntityId },
    ShowTargeting { range: i32, item: EntityId },
    MainMenu { menu_selection: MainMenuSelection },
    EscPressed,
    NextLevel,
    GameOver,
    MapGenAnimation,
}

/// The answer of a menu that lists items or cells.
#[derive(Clone, Copy, PartialEq, Eq, Structural, Debug)]
pub enum ItemMenuResult {
    Cancel,
    NoResponse,
    Selected,
}

/// The answer of the menu of what to do with an item.
#[derive(Clone, Copy, PartialEq, Eq, Structural, Debug)]
pub enum ItemActionSelection {
    NoSelection,
    Used,
    Dropped,
    Unequipped,
    Cancel,
}

/// The answer of the main menu: the highlighted entry, chosen or not.
#[derive(Clone, Copy, PartialEq, Eq, Structural, Debug)]
pub enum MainMenuResult {
    NoSelection { selected: MainMenuSelection },
    Selection { selected: MainMenuSelection },
}

/// The answer of the game-over screen.
#[derive(Clone, Copy, PartialEq, Eq, Structural, Debug)]
pub enum GameOverResult {
    NoSelection,
    QuitToMenu,
}

/// What the frame's screen or keyboard gave for the current state.
#[derive(Clone, Copy, PartialEq, Eq, Structural, Debug)]
pub enum FrameInput {
    /// The state needs nothing from outside.
    Nothing,
    /// The state that the player's command leads to.
    Command { next: RunState },
    /// The inventory menu's answer and the chosen item.
    Inventory { result: ItemMenuResult, item: Option<EntityId> },
    /// The item-action menu's answer and the item's range when it is a
    /// ranged item.
    ItemAction { selection: ItemActionSelection, ranged: Option<i32> },
    /// The targeting screen's answer and the chosen cell.
    Target { result: ItemMenuResult, target: Option<Point> },
    /// The main menu's answer.
    Menu { result: MainMenuResult },
    /// The game-over screen's answer.
    GameOverMenu { result: GameOverResult },
}

/// Work the frame asks the world to do.
#[derive(Clone, Copy, PartialEq, Eq, Structural, Debug)]
pub enum TickAction {
    RunSystems { player_turn: bool, ai_turn: bool },
    AdvanceTurn,
    WantsToUseItem { item: EntityId, target: Option<Point> },
    WantsToDropItem { item: EntityId },
    WantsToUnequipItem { item: EntityId },
    ResetEngine { selection: MainMenuSelection },
    Exit,
    NextLevel,
}

/// Whether the frame input is the kind that `state` asks for.
pub open spec fn input_fits(state: RunState, input: FrameInput) -> bool {
    match state {
        RunState::AwaitingInput => input is Command,
        RunState::ShowInventory => match input {
            FrameInput::Inventory { result, item } => result == ItemMenuResult::Selected
                ==> item is Some,
            _ => false,
        },
        RunState::ShowItemActions { .. } => input is ItemAction,
        RunState::ShowTargeting { .. } => input is Target,
        RunState::MainMenu { .. } => input is Menu,
        RunState::GameOver => input is GameOverMenu,
        _ => input is Nothing,
    }
}

/// The next state and the work of one frame, given the current state and
/// what the screen or keyboard gave.
pub open spec fn spec_tick(state: RunState, input: FrameInput) -> (RunState, Seq<TickAction>) {
    match state {
        RunState::PreRun => (
            RunState::AwaitingInput,
            seq![TickAction::RunSystems { player_turn: false, ai_turn: false }],
        ),
        RunState::AwaitingInput => match input {
            FrameInput::Command { next } => (next, seq![]),
            _ => (state, seq![]),
        },
        RunState::PlayerTurn => (
            RunState::AiTurn,
            seq![TickAction::RunSystems { player_turn: true, ai_turn: false }],
        ),
        RunState::AiTurn => (
            RunState::AwaitingInput,
            seq![
                TickAction::AdvanceTurn,
                TickAction::RunSystems { player_turn: false, ai_turn: true },
            ],
        ),
        RunState::ShowInventory => match input {
            FrameInput::Inventory { result, item } => match result {
                ItemMenuResult::NoResponse => (state, seq![]),
                ItemMenuResult::Cancel => (RunState::AwaitingInput, seq![]),
                ItemMenuResult::Selected => (
                    RunState::ShowItemActions { item: item.unwrap() },
                    seq![],
                ),
            },
            _ => (state, seq![]),
        },
        RunState::ShowItemActions { item } => match input {
            FrameInput::ItemAction { selection, ranged } => match selection {
                ItemActionSelection::NoSelection => (state, seq![]),
                ItemActionSelection::Used => match ranged {
                    Some(range) => (RunState::ShowTargeting { range, item }, seq![]),
                    None => (
                        RunState::PlayerTurn,
                        seq![TickAction::WantsToUseItem { item, target: None }],
                    ),
                },
                ItemActionSelection::Dropped => (
                    RunState::PlayerTurn,
                    seq![TickAction::WantsToDropItem { item }],
                ),
                ItemActionSelection::Unequipped => (
                    RunState::PlayerTurn,
                    seq![TickAction::WantsToUnequipItem { item }],
                ),
                ItemActionSelection::Cancel => (RunState::ShowInventory, seq![]),
            },
            _ => (state, seq![]),
        },
        RunState::ShowTargeting { range, item } => match input {
            FrameInput::Target { result, target } => match result {
                ItemMenuResult::Cancel => (RunState::AwaitingInput, seq![]),
                ItemMenuResult::NoResponse => (state, seq![]),
                ItemMenuResult::Selected => (
                    RunState::PlayerTurn,
                    seq![TickAction::WantsToUseItem { item, target }],
                ),
            },
            _ => (state, seq![]),
        },
        RunState::MainMenu { .. } => match input {
            FrameInput::Menu { result } => match result {
                MainMenuResult::NoSelection { selected } => (
                    RunState::MainMenu { menu_selection: selected },
                    seq![],
                ),
                MainMenuResult::Selection { selected } => match selected {
                    MainMenuSelection::Exit => (state, seq![TickAction::Exit]),
                    _ => (
                        RunState::MapGenAnimation,
                        seq![TickAction::ResetEngine { selection: selected }],
                    ),
                },
            },
            _ => (state, seq![]),
        },
        RunState::EscPressed => (
            RunState::MainMenu { menu_selection: MainMenuSelection::Roguelike },
            seq![],
        ),
        RunState::NextLevel => (RunState::PreRun, seq![TickAction::NextLevel]),
        RunState::GameOver => match input {
            FrameInput::GameOverMenu { result } => match result {
                GameOverResult::NoSelection => (state, seq![]),
                GameOverResult::QuitToMenu => (
                    RunState::MainMenu { menu_selection: MainMenuSelection::Roguelike },
                    seq![],
                ),
            },
            _ => (state, seq![]),
        },
        RunState::MapGenAnimation => (RunState::PreRun, seq![]),
    }
}

/// One frame of the game's turn cycle and menus: the state that follows
/// `state` and the work to do in the world, given what the screen or
/// keyboard gave this frame.
pub fn tick(state: RunState, input: FrameInput) -> (r: (RunState, Vec<TickAction>))
    requires
        input_fits(state, input),
    ensures
        r.0 == spec_tick(state, input).0,
        r.1@ == spec_tick(state, input).1,
{
    let mut actions: Vec<TickAction> = Vec::new();
    let next = match state {
        RunState::PreRun => {
            actions.push(TickAction::RunSystems { player_turn: false, ai_turn: false });
            RunState::AwaitingInput
        },
        RunState::AwaitingInput => match input {
            FrameInput::Command { next } => next,
            _ => state,
        },
        RunState::PlayerTurn => {
            actions.push(TickAction::RunSystems { player_turn: true, ai_turn: false });
            RunState::AiTurn
        },
        RunState::AiTurn => {
            actions.push(TickAction::AdvanceTurn);
            actions.push(TickAction::RunSystems { player_turn: false, ai_turn: true });
            RunState::AwaitingInput
        },
        RunState::ShowInventory => match input {
            FrameInput::Inventory { result, item } => match result {
                ItemMenuResult::NoResponse => state,
                ItemMenuResult::Cancel => RunState::AwaitingInput,
                ItemMenuResult::Selected => RunState::ShowItemActions { item: item.unwrap() },
            },
            _ => state,
        },
        RunState::ShowItemActions { item } => match input {
            FrameInput::ItemAction { selection, ranged } => match selection {
                ItemActionSelection::NoSelection => state,
                ItemActionSelection::Used => match ranged {
                    Some(range) => RunState::ShowTargeting { range, item },
                    None => {
                        actions.push(TickAction::WantsToUseItem { item, target: None });
                        RunState::PlayerTurn
                    },
                },
                ItemActionSelection::Dropped => {
                    actions.push(TickAction::WantsToDropItem { item });
                    RunState::PlayerTurn
                },
                ItemActionSelection::Unequipped => {
                    actions.push(TickAction::WantsToUnequipItem { item });
                    RunState::PlayerTurn
                },
                ItemActionSelection::Cancel => RunState::ShowInventory,
            },
            _ => state,
        },
        RunState::ShowTargeting { range, item } => match input {
            FrameInput::Target { result, target } => match result {
                ItemMenuResult::Cancel => RunState::AwaitingInput,
                ItemMenuResult::NoResponse => state,
                ItemMenuResult::Selected => {
                    actions.push(TickAction::WantsToUseItem { item, target });
                    RunState::PlayerTurn
                },
            },
            _ => state,
        },
        RunState::MainMenu { .. } => match input {
            FrameInput::Menu { result } => match result {
                MainMenuResult::NoSelection { selected } => RunState::MainMenu {
                    menu_selection: selected,
                },
                MainMenuResult::Selection { selected } => match selected {
                    MainMenuSelection::Exit => {
                        actions.push(TickAction::Exit);
                        state
                    },
                    _ => {
                        actions.push(TickAction::ResetEngine { selection: selected });
                        RunState::MapGenAnimation
                    },
                },
            },
            _ => state,
        },
        RunState::EscPressed => RunState::MainMenu {
            menu_selection: MainMenuSelection::Roguelike,
        },
        RunState::NextLevel => {
            actions.push(TickAction::NextLevel);
            RunState::PreRun
        },
        RunState::GameOver => match input {
            FrameInput::GameOverMenu { result } => match result {
                GameOverResult::NoSelection => state,
                GameOverResult::QuitToMenu => RunState::MainMenu {
                    menu_selection: MainMenuSelection::Roguelike,
                },
            },
            _ => state,
        },
        RunState::MapGenAnimation => RunState::PreRun,
    };
    proof {
        assert(actions@ =~= spec_tick(state, input).1);
    }
    (next, actions)
}

/// Whether the game world is drawn in `state`: everywhere but on the menus
/// and the game-over screen.
pub open spec fn spec_shows_world(state: RunState) -> bool {
    !(state is MainMenu || state is EscPressed || state is GameOver)
}

/// Whether the game world is drawn after a frame that ends in `state`.
pub fn shows_world(state: RunState) -> (r: bool)
    ensures
        r == spec_shows_world(state),
{
    match state {
        RunState::MainMenu { .. } | RunState::EscPressed | RunState::GameOver => false,
        _ => true,
    }
}

/// The player and the AI take turns: a player's turn always hands over to
/// the AI's turn, and the AI's turn always returns to waiting for input
/// after advancing the turn counter once; neither waits for any input.
pub proof fn lemma_turns_alternate()
    ensures
        spec_tick(RunState::PlayerTurn, FrameInput::Nothing).0 == RunState::AiTurn,
        spec_tick(RunState::AiTurn, FrameInput::Nothing).0 == RunState::AwaitingInput,
        spec_tick(RunState::AiTurn, FrameInput::Nothing).1.filter(
            |a: TickAction| a == TickAction::AdvanceTurn,
        ).len() == 1,
{
    let s = spec_tick(RunState::AiTurn, FrameInput::Nothing).1;
    reveal_with_fuel(Seq::filter, 3);
    assert(s.drop_last() =~= seq![TickAction::AdvanceTurn]);
    assert(s.drop_last().drop_last() =~= Seq::<TickAction>::empty());
}

/// Every action that commits the player to a move ends the player's
/// choosing: whenever a frame asks to use, drop or unequip an item, the
/// next state is the player's turn.
pub proof fn lemma_item_actions_end_in_player_turn(state: RunState, input: FrameInput, i: int)
    requires
        input_fits(state, input),
        0 <= i < spec_tick(state, input).1.len(),
        spec_tick(state, input).1[i] is WantsToUseItem || spec_tick(state, input).1[i] is WantsToDropItem
            || spec_tick(state, input).1[i] is WantsToUnequipItem,
    ensures
        spec_tick(state, input).0 == RunState::PlayerTurn,
{
}

} // verus!
