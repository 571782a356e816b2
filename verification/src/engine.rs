use vstd::prelude::*;
use crate::map::EntityId;

verus! {

/// The kind of game being played.
#[derive(Clone, Copy, PartialEq, Eq, Structural, Debug)]
pub enum GameMode {
    NotSelected,
    Sim,
    RL,
}

/// Per-mode settings: map size, whether the camera follows the player and
/// whether the player's line of sight limits what is shown.
#[derive(Clone, Copy, Debug)]
pub struct GameSettings {
    pub mode: GameMode,
    pub mapsize: (i32, i32),
    pub follow_player: bool,
    pub use_player_los: bool,
}

/// The settings of each playable mode.
pub open spec fn spec_settings(mode: GameMode) -> GameSettings {
    match mode {
        GameMode::Sim => GameSettings {
            mode,
            mapsize: (200, 80),
            follow_player: false,
            use_player_los: false,
        },
        _ => GameSettings { mode, mapsize: (80, 40), follow_player: true, use_player_los: true },
    }
}

/// The settings of a playable mode: the simulation shows a 200 x 80 map
/// without following the player or limiting sight; the roguelike shows an
/// 80 x 40 map that follows the player and shows only what they see.
pub fn get_settings(mode: GameMode) -> (s: GameSettings)
    requires
        mode != GameMode::NotSelected,
    ensures
        s == spec_settings(mode),
{
    match mode {
        GameMode::Sim => GameSettings {
            mode,
            mapsize: (200, 80),
            follow_player: false,
            use_player_los: false,
        },
        _ => GameSettings { mode, mapsize: (80, 40), follow_player: true, use_player_los: true },
    }
}

/// Drawing layers, from the bottom.
#[derive(Clone, Copy, Debug, PartialEq, Eq, PartialOrd, Ord)]
pub enum RenderOrder {
    Items,
    NPC,
    Player,
    Particle,
}

/// The message log shown to the player, oldest first.
pub struct GameLog {
    pub messages: Vec<String>,
}

/// `after` is the log `before` with one more message, of text `text`.
pub open spec fn spec_logged(before: Seq<String>, after: Seq<String>, text: Seq<char>) -> bool {
    &&& after.len() == before.len() + 1
    &&& after.take(before.len() as int) == before
    &&& after.last()@ == text
}

impl GameLog {
    /// An empty log.
    pub fn new() -> (log: GameLog)
        ensures
            log.messages@.len() == 0,
    {
        GameLog { messages: Vec::new() }
    }

    /// Adds a message at the end of the log.
    pub fn log(&mut self, text: String)
        ensures
            spec_logged(old(self).messages@, final(self).messages@, text@),
    {
        let ghost before = self.messages@;
        self.messages.push(text);
        assert(self.messages@.take(before.len() as int) =~= before);
    }
}

/// The character of decimal digit `d`.
pub open spec fn spec_digit(d: nat) -> char {
    (d + 48) as char
}

/// The decimal digits of `n`, most significant first.
pub open spec fn spec_digits(n: nat) -> Seq<char>
    decreases n,
{
    if n < 10 {
        seq![spec_digit(n)]
    } else {
        spec_digits(n / 10).push(spec_digit(n % 10))
    }
}

/// `n` written in decimal, with a minus sign in front when negative.
pub open spec fn spec_decimal(n: int) -> Seq<char> {
    if n < 0 {
        seq!['-'] + spec_digits((-n) as nat)
    } else {
        spec_digits(n as nat)
    }
}

/// The character of decimal digit `d`, as text.
fn digit_text(d: u32) -> (s: &'static str)
    requires
        d < 10,
    ensures
        s@ == seq![spec_digit(d as nat)],
{
    proof {
        reveal_strlit("0");
        reveal_strlit("1");
        reveal_strlit("2");
        reveal_strlit("3");
        reveal_strlit("4");
        reveal_strlit("5");
        reveal_strlit("6");
        reveal_strlit("7");
        reveal_strlit("8");
        reveal_strlit("9");
    }
    match d {
        0 => "0",
        1 => "1",
        2 => "2",
        3 => "3",
        4 => "4",
        5 => "5",
        6 => "6",
        7 => "7",
        8 => "8",
        _ => "9",
    }
}

/// Appends the decimal digits of `m` to `s`.
fn append_digits(s: &mut String, m: u32)
    ensures
        final(s)@ == old(s)@ + spec_digits(m as nat),
    decreases m,
{
    if m >= 10 {
        append_digits(s, m / 10);
    }
    s.append(digit_text(m % 10));
    proof {
        if m >= 10 {
            assert(spec_digits(m as nat) == spec_digits((m / 10) as nat).push(spec_digit((m % 10) as nat)));
        }
    }
    assert(s@ =~= old(s)@ + spec_digits(m as nat));
}

/// `n` in decimal: its digits, with a leading minus sign when it is
/// negative.
pub(crate) fn decimal_text(n: i32) -> (s: String)
    ensures
        s@ == spec_decimal(n as int),
{
    let mut s = String::new();
    if n < 0 {
        proof {
            reveal_strlit("-");
        }
        s.append("-");
        let m: u32 = (-(n as i64)) as u32;
        append_digits(&mut s, m);
        assert(s@ =~= spec_decimal(n as int));
    } else {
        append_digits(&mut s, n as u32);
        assert(s@ =~= spec_decimal(n as int));
    }
    s
}

/// `prefix` followed by `name`.
pub fn name_message(prefix: &str, name: &str) -> (s: String)
    ensures
        s@ == prefix@ + name@,
{
    let mut s = String::from_str(prefix);
    s.append(name);
    s
}

/// The systems that advance the game world, in the order a frame runs them.
#[derive(Clone, Copy, PartialEq, Eq, Structural, Debug)]
pub enum GameSystem {
    Fire,
    Visibility,
    Effects,
    Pathfinding,
    Spawner,
    FishAi,
    VillagerAi,
    MonsterAi,
    MapIndexing,
    MeleeCombat,
    Inventory,
    Dissasemble,
    DropItem,
    UnequipItem,
    ItemUse,
    SpawnParticles,
}

/// The systems of one engine step, in order. Fire burns only on the
/// player's turn; the AI systems run only on the AI's turn; effects are
/// applied and the map re-indexed between the phases.
pub open spec fn spec_systems_to_run(player_turn: bool, ai_turn: bool) -> Seq<GameSystem> {
    let fire: Seq<GameSystem> = if player_turn {
        seq![GameSystem::Fire]
    } else {
        seq![]
    };
    let ai: Seq<GameSystem> = if ai_turn {
        seq![
            GameSystem::Pathfinding,
            GameSystem::Spawner,
            GameSystem::FishAi,
            GameSystem::VillagerAi,
            GameSystem::MonsterAi,
        ]
    } else {
        seq![]
    };
    fire + seq![GameSystem::Visibility, GameSystem::Effects] + ai + seq![
        GameSystem::Effects,
        GameSystem::MapIndexing,
        GameSystem::MeleeCombat,
        GameSystem::Inventory,
        GameSystem::Dissasemble,
        GameSystem::DropItem,
        GameSystem::UnequipItem,
        GameSystem::ItemUse,
        GameSystem::SpawnParticles,
        GameSystem::Effects,
        GameSystem::MapIndexing,
    ]
}

/// What the level change needs to know of an entity: whether it is the
/// player, and who carries it in a backpack or has it equipped.
#[derive(Clone, Copy, PartialEq, Eq, Structural, Debug)]
pub struct LevelEntity {
    pub id: EntityId,
    pub is_player: bool,
    pub in_backpack_of: Option<EntityId>,
    pub equipped_by: Option<EntityId>,
}

/// An entity survives a level change when it is the player, or is in the
/// player's backpack, or (when it is in no backpack) is equipped by the
/// player.
pub open spec fn keeps_on_level_change(e: LevelEntity, player: EntityId) -> bool {
    if e.is_player {
        true
    } else if e.in_backpack_of is Some {
        e.in_backpack_of == Some(player)
    } else {
        e.equipped_by == Some(player)
    }
}

/// The ids of the entities in `es` that a level change deletes, in order.
pub open spec fn spec_to_delete(es: Seq<LevelEntity>, player: EntityId) -> Seq<EntityId>
    decreases es.len(),
{
    if es.len() == 0 {
        seq![]
    } else {
        let rest = spec_to_delete(es.drop_last(), player);
        if keeps_on_level_change(es.last(), player) {
            rest
        } else {
            rest.push(es.last().id)
        }
    }
}

/// The map generators.
#[derive(Clone, Copy, PartialEq, Eq, Structural, Debug)]
pub enum BuilderKind {
    BspDungeon,
    BspInterior,
    CellularAutomata,
    DrunkardsBombingRun,
    BspFarm,
    SimpleMap,
    Village,
    Arena,
}

/// The generator that a roll of one five-sided die picks.
pub open spec fn spec_random_builder(roll: i32) -> BuilderKind {
    if roll == 1 {
        BuilderKind::BspDungeon
    } else if roll == 2 {
        BuilderKind::BspInterior
    } else if roll == 3 {
        BuilderKind::CellularAutomata
    } else if roll == 4 {
        BuilderKind::DrunkardsBombingRun
    } else if roll == 5 {
        BuilderKind::BspFarm
    } else {
        BuilderKind::SimpleMap
    }
}

/// The generator for a new level in game mode `mode`; with no mode chosen
/// yet, the one that `roll` picks at random.
pub open spec fn spec_builder_for(mode: GameMode, roll: i32) -> BuilderKind {
    match mode {
        GameMode::NotSelected => spec_random_builder(roll),
        GameMode::Sim => BuilderKind::Village,
        GameMode::RL => BuilderKind::DrunkardsBombingRun,
    }
}

/// What a change of game mode does to the player's camera marker.
#[derive(Clone, Copy, PartialEq, Eq, Structural, Debug)]
pub enum CameraChange {
    Add,
    Remove,
    Keep,
}

/// The game engine's scheduling and level-change decisions.
pub struct Engine {}

impl Engine {
    /// The generator that a die roll picks.
    pub fn random_builder(roll: i32) -> (b: BuilderKind)
        ensures
            b == spec_random_builder(roll),
    {
        match roll {
            1 => BuilderKind::BspDungeon,
            2 => BuilderKind::BspInterior,
            3 => BuilderKind::CellularAutomata,
            4 => BuilderKind::DrunkardsBombingRun,
            5 => BuilderKind::BspFarm,
            _ => BuilderKind::SimpleMap,
        }
    }

    /// The generator for a new level in game mode `mode`.
    pub fn builder_for(mode: GameMode, roll: i32) -> (b: BuilderKind)
        ensures
            b == spec_builder_for(mode, roll),
    {
        match mode {
            GameMode::NotSelected => Self::random_builder(roll),
            GameMode::Sim => BuilderKind::Village,
            GameMode::RL => BuilderKind::DrunkardsBombingRun,
        }
    }

    /// The generator for a new level in game mode `mode`, rolling one
    /// five-sided die when no mode is chosen yet.
    pub fn new_level_builder(mode: GameMode) -> (b: BuilderKind)
        ensures
            exists|roll: i32| 1 <= roll <= 5 && b == #[trigger] spec_builder_for(mode, roll),
            mode != GameMode::NotSelected ==> b == spec_builder_for(mode, 1),
    {
        let roll = if mode == GameMode::NotSelected {
            let mut rng = crate::spawning::new_rng();
            crate::spawning::roll_dice(&mut rng, 1, 5)
        } else {
            1
        };
        Self::builder_for(mode, roll)
    }

    /// The camera marker on switching to game mode `mode`: the simulation
    /// puts one on a living player; other modes take it off.
    pub fn camera_change(mode: GameMode, player_alive: bool) -> (c: CameraChange)
        ensures
            c == (match mode {
                GameMode::Sim => if player_alive {
                    CameraChange::Add
                } else {
                    CameraChange::Keep
                },
                _ => CameraChange::Remove,
            }),
    {
        match mode {
            GameMode::Sim => if player_alive {
                CameraChange::Add
            } else {
                CameraChange::Keep
            },
            _ => CameraChange::Remove,
        }
    }

    /// The depth of the level below `depth`, which the player reaches down
    /// the stairs; the log tells of the descent.
    pub fn next_level(depth: i32, log: &mut GameLog) -> (d: i32)
        requires
            depth < i32::MAX,
        ensures
            d == depth + 1,
            spec_logged(old(log).messages@, final(log).messages@, "You descend in the staircase"@),
    {
        log.log("You descend in the staircase".to_owned());
        depth + 1
    }

    /// The systems to run for one engine step.
    pub fn systems_to_run(player_turn: bool, ai_turn: bool) -> (r: Vec<GameSystem>)
        ensures
            r@ == spec_systems_to_run(player_turn, ai_turn),
    {
        let mut r: Vec<GameSystem> = Vec::new();
        if player_turn {
            r.push(GameSystem::Fire);
        }
        r.push(GameSystem::Visibility);
        r.push(GameSystem::Effects);
        if ai_turn {
            r.push(GameSystem::Pathfinding);
            r.push(GameSystem::Spawner);
            r.push(GameSystem::FishAi);
            r.push(GameSystem::VillagerAi);
            r.push(GameSystem::MonsterAi);
        }
        r.push(GameSystem::Effects);
        r.push(GameSystem::MapIndexing);
        r.push(GameSystem::MeleeCombat);
        r.push(GameSystem::Inventory);
        r.push(GameSystem::Dissasemble);
        r.push(GameSystem::DropItem);
        r.push(GameSystem::UnequipItem);
        r.push(GameSystem::ItemUse);
        r.push(GameSystem::SpawnParticles);
        r.push(GameSystem::Effects);
        r.push(GameSystem::MapIndexing);
        assert(r@ =~= spec_systems_to_run(player_turn, ai_turn));
        r
    }

    /// The entities to delete when the player leaves the level: all but the
    /// player and what the player carries.
    pub fn entities_to_delete_on_level_change(entities: &Vec<LevelEntity>, player: EntityId) -> (r:
        Vec<EntityId>)
        ensures
            r@ == spec_to_delete(entities@, player),
    {
        let mut r: Vec<EntityId> = Vec::new();
        let mut i: usize = 0;
        while i < entities.len()
            invariant
                i <= entities.len(),
                r@ == spec_to_delete(entities@.take(i as int), player),
            decreases entities.len() - i,
        {
            let e = entities[i];
            let mut to_delete = true;
            if e.is_player {
                to_delete = false;
            } else if let Some(owner) = e.in_backpack_of {
                if owner == player {
                    to_delete = false;
                }
            } else if let Some(owner) = e.equipped_by {
                if owner == player {
                    to_delete = false;
                }
            }
            if to_delete {
                r.push(e.id);
            }
            assert(entities@.take(i + 1).drop_last() =~= entities@.take(i as int));
            i = i + 1;
        }
        assert(entities@.take(entities.len() as int) =~= entities@);
        r
    }
}

/// The player is never deleted on a level change, and nothing the player
/// carries in a backpack is either.
pub proof fn lemma_level_change_keeps_player_items(
    es: Seq<LevelEntity>,
    player: EntityId,
    k: int,
)
    requires
        0 <= k < es.len(),
        es[k].is_player || es[k].in_backpack_of == Some(player),
        forall|i: int, j: int| 0 <= i < j < es.len() ==> es[i].id != es[j].id,
    ensures
        !spec_to_delete(es, player).contains(es[k].id),
    decreases es.len(),
{
    lemma_to_delete_from(es, player);
    if k == es.len() - 1 {
        assert(keeps_on_level_change(es.last(), player));
        assert(es.drop_last()[es.len() - 2] == es[es.len() - 2] || es.len() < 2);
        lemma_ids_not_in_prefix(es, player);
    } else {
        lemma_level_change_keeps_player_items(es.drop_last(), player, k);
        if !keeps_on_level_change(es.last(), player) {
            assert(es.last().id != es[k].id);
        }
    }
}

/// Every deleted id belongs to some entity of the list.
proof fn lemma_to_delete_from(es: Seq<LevelEntity>, player: EntityId)
    ensures
        forall|d: EntityId|
            spec_to_delete(es, player).contains(d) ==> exists|i: int|
                0 <= i < es.len() && (#[trigger] es[i]).id == d && !keeps_on_level_change(
                    es[i],
                    player,
                ),
    decreases es.len(),
{
    if es.len() > 0 {
        lemma_to_delete_from(es.drop_last(), player);
        assert forall|d: EntityId| spec_to_delete(es, player).contains(d) implies exists|i: int|
            0 <= i < es.len() && (#[trigger] es[i]).id == d && !keeps_on_level_change(
                es[i],
                player,
            ) by {
            let rest = spec_to_delete(es.drop_last(), player);
            if rest.contains(d) {
                let i = choose|i: int|
                    0 <= i < es.drop_last().len() && (#[trigger] es.drop_last()[i]).id == d
                        && !keeps_on_level_change(es.drop_last()[i], player);
                assert(es[i] == es.drop_last()[i]);
            } else {
                assert(es[es.len() - 1].id == d);
            }
        }
    }
}

/// The last entity's id is not deleted when the list has no repeated ids
/// and the last entity is kept.
proof fn lemma_ids_not_in_prefix(es: Seq<LevelEntity>, player: EntityId)
    requires
        es.len() > 0,
        keeps_on_level_change(es.last(), player),
        forall|i: int, j: int| 0 <= i < j < es.len() ==> es[i].id != es[j].id,
    ensures
        !spec_to_delete(es, player).contains(es.last().id),
{
    let pre = es.drop_last();
    lemma_to_delete_from(pre, player);
    if spec_to_delete(pre, player).contains(es.last().id) {
        let i = choose|i: int|
            0 <= i < pre.len() && (#[trigger] pre[i]).id == es.last().id
                && !keeps_on_level_change(pre[i], player);
        assert(es[i].id == es[es.len() - 1].id);
    }
}

} // verus!
