use vstd::prelude::*;
use crate::components::{spec_count_type, Inventory, ItemType, ItemTypes, Position};
use crate::effects::EffectType;
use crate::geometry::{get_neighbors, spec_neighbors, Point};
use crate::map::{EntityId, TileMap, TileType};

verus! {

/// The utility-based decision maker of the villagers and orcs.
pub struct AI {}

/// What an actor sets out to do.
#[derive(Clone, Copy, PartialEq, Eq, Structural, Debug)]
pub enum Task {
    Fish,
    Explore,
    ExchangeInfo,
    MoveTo,
    Destroy,
    PickUpItem,
    DropItem,
    UseItem,
    EquipItem,
    UnequipItem,
    UseWorkshop,
    DepositItemToInventory,
    Attack,
}

/// The shape of the curve that turns an input into a score; constant,
/// greater-than and less-than curves use only their `m` parameter.
#[derive(Clone, Copy, PartialEq, Eq, Structural, Debug)]
pub enum ResponseCurveType {
    Const,
    GreaterThan,
    LessThan,
    Linear,
    Quadratic,
    Logistic,
}

/// The inputs a consideration can measure.
#[derive(Clone, Copy, PartialEq, Eq, Structural, Debug)]
pub enum InputType {
    DistanceToEntity,
    DistanceToComponentType,
    ItemStockpileCount,
    ItemRange,
    HasItem,
}

/// The measurements that feed considerations.
pub struct Inputs {}

/// What an intent is aimed at: a place or an entity.
#[derive(Clone, Copy, PartialEq, Eq, Structural, Debug)]
pub enum Target {
    LOCATION(Point),
    ENTITY(EntityId),
}

/// What an actor has decided to do, on which targets, since which turn.
/// Most tasks have one target; depositing an item names the item, then
/// the inventory.
pub struct Intent {
    pub name: String,
    pub task: Task,
    pub target: Vec<Target>,
    pub turn: i32,
}

impl Target {
    /// The target's cell: the place itself, or the entity's first cell
    /// (`entity_cell`), or (-1, -1) when the entity has no position.
    pub fn get_point(&self, entity_cell: Option<Point>) -> (p: Point)
        ensures
            match *self {
                Target::LOCATION(l) => p == l,
                Target::ENTITY(_) => match entity_cell {
                    Some(c) => p == c,
                    None => p == Point { x: -1i32, y: -1i32 },
                },
            },
    {
        match self {
            Target::LOCATION(loc) => *loc,
            Target::ENTITY(_) => match entity_cell {
                Some(c) => c,
                None => Point { x: -1i32, y: -1i32 },
            },
        }
    }
}

/// The cells a distance is measured from or to, for target `t`: the
/// place's cell, or every cell of the entity (`entity_pos`), or cell 0
/// when the entity has no position.
pub open spec fn spec_target_cells(map: &TileMap, t: Target, entity_pos: Option<Position>) -> Seq<usize> {
    match t {
        Target::LOCATION(l) => seq![map.spec_point_idx(l) as usize],
        Target::ENTITY(_) => match entity_pos {
            Some(pos) => pos.ps@.map_values(|p: Point| map.spec_point_idx(p) as usize),
            None => seq![0usize],
        },
    }
}

/// The target's cells lie on the map.
pub open spec fn target_on_map(map: &TileMap, t: Target, entity_pos: Option<Position>) -> bool {
    match t {
        Target::LOCATION(l) => map.point_in_bounds(l),
        Target::ENTITY(_) => match entity_pos {
            Some(pos) => forall|i: int| 0 <= i < pos.ps@.len() ==> map.point_in_bounds(#[trigger] pos.ps@[i]),
            None => true,
        },
    }
}

impl Inputs {
    /// The cells between which the distance to or from target `t` is
    /// measured (the least pathing distance over all pairs counts).
    pub fn distance_cells(map: &TileMap, t: Target, entity_pos: &Option<Position>) -> (r: Vec<usize>)
        requires
            map.wf(),
            target_on_map(map, t, *entity_pos),
        ensures
            r@ == spec_target_cells(map, t, *entity_pos),
    {
        match t {
            Target::LOCATION(l) => {
                let mut r: Vec<usize> = Vec::new();
                r.push(map.point_idx(l));
                r
            },
            Target::ENTITY(_) => match entity_pos {
                Some(pos) => {
                    let r = pos.idxes(map);
                    assert(r@ =~= pos.ps@.map_values(|p: Point| map.spec_point_idx(p) as usize));
                    r
                },
                None => {
                    let mut r: Vec<usize> = Vec::new();
                    r.push(0);
                    r
                },
            },
        }
    }

    /// How many items of kind `item_type` the holder carries. Counting
    /// takes the items out of the holder's inventory: afterwards it is
    /// empty.
    pub fn inventory_count(inv: &mut Inventory, kinds: &ItemTypes, item_type: ItemType) -> (r: usize)
        ensures
            r == spec_count_type(old(inv).items@, kinds.entries@, item_type),
            final(inv).items@.len() == 0,
            final(inv).capacity == old(inv).capacity,
    {
        let mut items: Vec<EntityId> = Vec::new();
        std::mem::swap(&mut items, &mut inv.items);
        let counted = Inventory { capacity: inv.capacity, items };
        counted.count_type(kinds, item_type)
    }
}

/// Whether two cells are next to each other or the same: no more than 1.5
/// cells apart in straight-line distance.
pub open spec fn spec_within_reach(a: Point, b: Point) -> bool {
    (a.x - b.x) * (a.x - b.x) + (a.y - b.y) * (a.y - b.y) <= 2
}

/// The differences of the coordinates of `a` and `b` fit in an `i32`, as
/// the distance between them needs.
pub open spec fn reach_fits(a: Point, b: Point) -> bool {
    &&& -i32::MAX <= a.x - b.x <= i32::MAX
    &&& -i32::MAX <= a.y - b.y <= i32::MAX
}

/// Whether `a` and `b` are within one cell, diagonals included.
pub fn within_reach(a: Point, b: Point) -> (r: bool)
    requires
        reach_fits(a, b),
    ensures
        r == spec_within_reach(a, b),
        r <==> (-1 <= a.x - b.x <= 1 && -1 <= a.y - b.y <= 1),
{
    let dx = (a.x as i64) - (b.x as i64);
    let dy = (a.y as i64) - (b.y as i64);
    let r = -1 <= dx && dx <= 1 && -1 <= dy && dy <= 1;
    proof {
        let ddx = dx as int;
        let ddy = dy as int;
        if !r {
            if ddx >= 2 || ddx <= -2 {
                assert(ddx * ddx >= 4) by (nonlinear_arith)
                    requires
                        ddx >= 2 || ddx <= -2,
                ;
            } else {
                assert(ddy * ddy >= 4) by (nonlinear_arith)
                    requires
                        ddy >= 2 || ddy <= -2,
                ;
            }
            assert(ddx * ddx >= 0 && ddy * ddy >= 0) by (nonlinear_arith);
        } else {
            assert(ddx * ddx <= 1 && ddy * ddy <= 1) by (nonlinear_arith)
                requires
                    -1 <= ddx <= 1,
                    -1 <= ddy <= 1,
            ;
        }
    }
    r
}

/// An actor that wants to destroy something: its cells, and what it knows
/// of its first target.
pub struct Demolisher {
    pub cells: Vec<Point>,
    pub target: Target,
    /// The first cell of the target entity, when it has a position.
    pub target_cell: Option<Point>,
    /// Whether the target entity is a tree.
    pub target_is_tree: bool,
}

/// What the demolition of this turn does.
pub struct Demolition {
    /// The destroyed entities, in order.
    pub destroyed: Vec<EntityId>,
    /// Where logs fall: one for each destroyed tree, on its cell (the
    /// invalid point when the tree had no position).
    pub logs: Vec<Point>,
}

/// Whether the actor destroys its target: the target is an entity whose
/// cell is known and is not the invalid point, and some cell of the actor
/// is within reach of it.
pub open spec fn spec_destroys(d: Demolisher) -> bool {
    let tp = spec_demolition_target(d);
    &&& tp != Point { x: 0i32, y: 0i32 }
    &&& exists|i: int| 0 <= i < d.cells@.len() && spec_within_reach(tp, #[trigger] d.cells@[i])
    &&& d.target is ENTITY
}

/// The entities destroyed and the logs left by `ds`, in order.
pub open spec fn spec_demolition(ds: Seq<Demolisher>) -> (Seq<EntityId>, Seq<Point>)
    decreases ds.len(),
{
    if ds.len() == 0 {
        (seq![], seq![])
    } else {
        let r = spec_demolition(ds.drop_last());
        let d = ds.last();
        if spec_destroys(d) {
            let cell = match d.target_cell {
                Some(c) => c,
                None => Point { x: 0i32, y: 0i32 },
            };
            (r.0.push(d.target->ENTITY_0), if d.target_is_tree {
                r.1.push(cell)
            } else {
                r.1
            })
        } else {
            r
        }
    }
}

/// The cell that a demolisher goes for: a location itself, or the known
/// cell of an entity (the invalid point `(-1, -1)` when it has none).
pub open spec fn spec_demolition_target(d: Demolisher) -> Point {
    match d.target {
        Target::LOCATION(l) => l,
        Target::ENTITY(_) => match d.target_cell {
            Some(c) => c,
            None => Point { x: -1i32, y: -1i32 },
        },
    }
}

/// The distance of each of the demolisher's cells to its target that is
/// measured, up to the first cell within reach, can be computed.
pub open spec fn demolisher_ok(d: Demolisher) -> bool {
    let tp = spec_demolition_target(d);
    tp != Point { x: 0i32, y: 0i32 } ==> forall|k: int|
        0 <= k < d.cells@.len() && (forall|j: int| 0 <= j < k ==> !spec_within_reach(tp, #[trigger] d.cells@[j]))
            ==> reach_fits(tp, #[trigger] d.cells@[k])
}

/// Actors that want to destroy an entity next to them destroy it; a
/// destroyed tree leaves a log on its cell.
pub fn run_dissasemble_system(ds: &Vec<Demolisher>) -> (r: Demolition)
    requires
        forall|i: int| 0 <= i < ds@.len() ==> demolisher_ok(#[trigger] ds@[i]),
    ensures
        r.destroyed@ == spec_demolition(ds@).0,
        r.logs@ == spec_demolition(ds@).1,
{
    let mut destroyed: Vec<EntityId> = Vec::new();
    let mut logs: Vec<Point> = Vec::new();
    let mut i: usize = 0;
    while i < ds.len()
        invariant
            i <= ds@.len(),
            forall|k: int| 0 <= k < ds@.len() ==> demolisher_ok(#[trigger] ds@[k]),
            destroyed@ == spec_demolition(ds@.take(i as int)).0,
            logs@ == spec_demolition(ds@.take(i as int)).1,
        decreases ds.len() - i,
    {
        let d = &ds[i];
        assert(ds@.take(i + 1).drop_last() =~= ds@.take(i as int));
        assert(demolisher_ok(ds@[i as int]));
        let target = d.target.get_point(d.target_cell);
        if !(target.x == 0 && target.y == 0) {
            let mut j: usize = 0;
            let mut reached = false;
            while j < d.cells.len() && !reached
                invariant
                    j <= d.cells@.len(),
                    target == spec_demolition_target(*d),
                    demolisher_ok(*d),
                    target != (Point { x: 0i32, y: 0i32 }),
                    reached ==> j < d.cells@.len() && spec_within_reach(target, d.cells@[j as int]),
                    forall|k: int| 0 <= k < j ==> !spec_within_reach(target, #[trigger] d.cells@[k]),
                decreases d.cells.len() - j, if reached { 0int } else { 1int },
            {
                if within_reach(target, d.cells[j]) {
                    reached = true;
                } else {
                    j = j + 1;
                }
            }
            if reached {
                if let Target::ENTITY(e) = d.target {
                    let cell = match d.target_cell {
                        Some(c) => c,
                        None => Point::invalid_point(),
                    };
                    if d.target_is_tree {
                        logs.push(cell);
                    }
                    destroyed.push(e);
                }
            }
        }
        i = i + 1;
    }
    assert(ds@.take(ds.len() as int) =~= ds@);
    Demolition { destroyed, logs }
}

/// What a monster does this turn.
#[derive(Clone, Copy, PartialEq, Eq, Structural, Debug)]
pub enum MonsterAction {
    /// Confused: it does nothing and its confusion wears off by a turn;
    /// `cured` tells whether it is over.
    Confused { turns_left: i32, cured: bool },
    /// The player is out of sight: it waits.
    Wait,
    /// The player is next to it: it attacks.
    Attack,
    /// The player is in sight but away: it walks towards them.
    Chase,
}

/// A monster's choice given its confusion, what it sees, its first cell
/// and the player's cell.
pub open spec fn spec_monster_action(
    confusion: Option<i32>,
    visible: Seq<Point>,
    pos: Point,
    player: Point,
) -> MonsterAction {
    match confusion {
        Some(turns) => MonsterAction::Confused {
            turns_left: (turns - 1) as i32,
            cured: turns - 1 <= 0,
        },
        None => if !visible.contains(player) {
            MonsterAction::Wait
        } else if spec_within_reach(player, pos) {
            MonsterAction::Attack
        } else {
            MonsterAction::Chase
        },
    }
}

/// A monster's choice this turn.
pub fn monster_action(confusion: Option<i32>, visible: &Vec<Point>, pos: Point, player: Point) -> (r:
    MonsterAction)
    requires
        confusion is None && visible@.contains(player) ==> reach_fits(player, pos),
        confusion is Some ==> confusion->0 > i32::MIN,
    ensures
        r == spec_monster_action(confusion, visible@, pos, player),
{
    if let Some(turns) = confusion {
        let left = turns - 1;
        return MonsterAction::Confused { turns_left: left, cured: left <= 0 };
    }
    let mut seen = false;
    let mut i: usize = 0;
    while i < visible.len()
        invariant
            i <= visible@.len(),
            seen <==> exists|k: int| 0 <= k < i && visible@[k] == player,
        decreases visible.len() - i,
    {
        if visible[i] == player {
            seen = true;
        }
        i = i + 1;
    }
    if !seen {
        return MonsterAction::Wait;
    }
    if within_reach(player, pos) {
        MonsterAction::Attack
    } else {
        MonsterAction::Chase
    }
}

/// Two cells are within reach exactly when they are at most one column
/// and one row apart.
proof fn lemma_within_reach_adjacent(a: Point, b: Point)
    ensures
        spec_within_reach(a, b) <==> (-1 <= a.x - b.x <= 1 && -1 <= a.y - b.y <= 1),
{
    let dx = a.x - b.x;
    let dy = a.y - b.y;
    if -1 <= dx <= 1 && -1 <= dy <= 1 {
        assert(dx * dx <= 1 && dy * dy <= 1) by (nonlinear_arith)
            requires
                -1 <= dx <= 1,
                -1 <= dy <= 1,
        ;
    } else {
        assert(dx * dx + dy * dy >= 4) by (nonlinear_arith)
            requires
                !(-1 <= dx <= 1 && -1 <= dy <= 1),
        ;
    }
}

/// A monster that is not confused and sees the player attacks exactly when
/// the player is within one cell of it (diagonals included, a straight
/// distance under 1.5), and chases the player otherwise; one that does not
/// see the player waits.
pub proof fn lemma_monster_attacks_only_adjacent(visible: Seq<Point>, pos: Point, player: Point)
    ensures
        visible.contains(player) && -1 <= player.x - pos.x <= 1 && -1 <= player.y - pos.y <= 1
            ==> spec_monster_action(None, visible, pos, player) == MonsterAction::Attack,
        visible.contains(player) && !(-1 <= player.x - pos.x <= 1 && -1 <= player.y - pos.y <= 1)
            ==> spec_monster_action(None, visible, pos, player) == MonsterAction::Chase,
        !visible.contains(player) ==> spec_monster_action(None, visible, pos, player) == MonsterAction::Wait,
{
    lemma_within_reach_adjacent(player, pos);
}

/// The step a chasing monster takes: towards the second cell of its path
/// (the first is where it stands), when the path was found and goes
/// somewhere.
pub fn chase_step(map: &TileMap, pos: Point, found: bool, steps: &Vec<usize>) -> (r: Option<Point>)
    requires
        map.wf(),
        map.point_in_bounds(pos),
        found && steps@.len() > 1 ==> steps@[1] < map.size(),
    ensures
        !(found && steps@.len() > 1) ==> r is None,
        found && steps@.len() > 1 ==> r == Some(
            Point {
                x: (map.spec_idx_point(steps@[1] as int).x - pos.x) as i32,
                y: (map.spec_idx_point(steps@[1] as int).y - pos.y) as i32,
            },
        ),
{
    if found && steps.len() > 1 {
        let p = map.idx_point(steps[1]);
        Some(Point { x: p.x - pos.x, y: p.y - pos.y })
    } else {
        None
    }
}

/// The fish an actor at `p` catches: on each neighbouring water cell (in
/// neighbour order), the first entity there that is a fish.
pub open spec fn spec_catches(map: &TileMap, p: Point, fish: Seq<EntityId>) -> Seq<EntityId> {
    spec_catches_in(map, spec_neighbors(p), fish)
}

pub open spec fn spec_first_fish(content: Seq<EntityId>, fish: Seq<EntityId>) -> Option<EntityId>
    decreases content.len(),
{
    if content.len() == 0 {
        None
    } else if fish.contains(content[0]) {
        Some(content[0])
    } else {
        spec_first_fish(content.drop_first(), fish)
    }
}

pub open spec fn spec_catches_in(map: &TileMap, cells: Seq<Point>, fish: Seq<EntityId>) -> Seq<EntityId>
    decreases cells.len(),
{
    if cells.len() == 0 {
        seq![]
    } else {
        let rest = spec_catches_in(map, cells.drop_last(), fish);
        let idx = map.spec_point_idx(cells.last());
        if map.tiles@[idx] == TileType::Water {
            match spec_first_fish(map.tile_content@[idx]@, fish) {
                Some(f) => rest.push(f),
                None => rest,
            }
        } else {
            rest
        }
    }
}

fn first_fish(content: &Vec<EntityId>, fish: &Vec<EntityId>) -> (r: Option<EntityId>)
    ensures
        r == spec_first_fish(content@, fish@),
{
    let mut i: usize = 0;
    assert(content@.skip(0) =~= content@);
    while i < content.len()
        invariant
            i <= content@.len(),
            spec_first_fish(content@, fish@) == spec_first_fish(content@.skip(i as int), fish@),
        decreases content.len() - i,
    {
        assert(content@.skip(i as int)[0] == content@[i as int]);
        assert(content@.skip(i as int).drop_first() =~= content@.skip(i + 1));
        let e = content[i];
        let mut j: usize = 0;
        let mut is_fish = false;
        while j < fish.len()
            invariant
                j <= fish@.len(),
                is_fish <==> exists|k: int| 0 <= k < j && fish@[k] == e,
            decreases fish.len() - j,
        {
            if fish[j] == e {
                is_fish = true;
            }
            j = j + 1;
        }
        if is_fish {
            return Some(e);
        }
        i = i + 1;
    }
    None
}

/// The fish that an actor fishing from `p` picks up (`fish` are the
/// entities that are fish).
pub fn fish_catches(map: &TileMap, p: Point, fish: &Vec<EntityId>) -> (r: Vec<EntityId>)
    requires
        map.wf(),
        map.spec_in_bounds(p.x - 1, p.y - 1),
        map.spec_in_bounds(p.x + 1, p.y + 1),
    ensures
        r@ == spec_catches(map, p, fish@),
{
    let n = get_neighbors(p);
    let mut r: Vec<EntityId> = Vec::new();
    let mut i: usize = 0;
    while i < n.len()
        invariant
            map.wf(),
            map.spec_in_bounds(p.x - 1, p.y - 1),
            map.spec_in_bounds(p.x + 1, p.y + 1),
            n@ == spec_neighbors(p),
            i <= n@.len(),
            r@ == spec_catches_in(map, n@.take(i as int), fish@),
        decreases n.len() - i,
    {
        assert(n@.take(i + 1).drop_last() =~= n@.take(i as int));
        assert(map.point_in_bounds(n@[i as int]));
        let idx = map.point_idx(n[i]);
        if map.tiles[idx] == TileType::Water {
            if let Some(f) = first_fish(&map.tile_content[idx], fish) {
                r.push(f);
            }
        }
        i = i + 1;
    }
    assert(n@.take(n@.len() as int) =~= n@);
    r
}

/// What an actor's chosen task asks of the world.
#[derive(Clone, Copy, PartialEq, Eq, Structural, Debug)]
pub enum TaskOrder {
    /// Nothing to do this turn.
    Nothing,
    /// Queue this effect for the actor.
    Effect { tile_idx: usize, kind: TaskEffect },
    /// Walk towards the target (the path is worked out on the map).
    MoveTowards { target: Target },
    /// Fish from the actor's cell.
    Fish,
}

/// The effects a task can queue directly.
#[derive(Clone, Copy, PartialEq, Eq, Structural, Debug)]
pub enum TaskEffect {
    Explore,
    MoveOrAttack,
}

/// Whether a villager picks a new intent this turn: one without an intent
/// does; one with a fresh intent keeps it, and decides again only once the
/// intent, set on turn `t`, is more than five turns old (`t + 5 < turn`).
pub fn wants_new_intent(intent_turn: Option<i32>, turn: i32) -> (r: bool)
    requires
        intent_turn is Some ==> intent_turn->0 <= i32::MAX - 5,
    ensures
        r == match intent_turn {
            None => true,
            Some(t) => t + 5 < turn,
        },
{
    match intent_turn {
        None => true,
        Some(t) => t + 5 < turn,
    }
}

/// The tasks that the actors carry out (the others are not implemented).
pub open spec fn task_supported(t: Task) -> bool {
    !(t is ExchangeInfo || t is DropItem || t is UseItem || t is EquipItem || t is UnequipItem
        || t is UseWorkshop)
}

/// What a task asks for: fishing fishes; exploring queues an exploration;
/// moving walks to the first target; attacking goes for the first
/// target's cell (an entity's first cell, or nothing when it has none);
/// the other tasks do nothing here.
pub open spec fn spec_task_order(
    map: &TileMap,
    task: Task,
    first_target: Option<Target>,
    target_cell: Option<Point>,
) -> TaskOrder {
    match task {
        Task::Fish => TaskOrder::Fish,
        Task::Explore => TaskOrder::Effect { tile_idx: 0, kind: TaskEffect::Explore },
        Task::MoveTo => match first_target {
            Some(t) => TaskOrder::MoveTowards { target: t },
            None => TaskOrder::Nothing,
        },
        Task::Attack => match first_target {
            Some(Target::LOCATION(l)) => TaskOrder::Effect {
                tile_idx: map.spec_point_idx(l) as usize,
                kind: TaskEffect::MoveOrAttack,
            },
            Some(Target::ENTITY(_)) => match target_cell {
                Some(c) => TaskOrder::Effect {
                    tile_idx: map.spec_point_idx(c) as usize,
                    kind: TaskEffect::MoveOrAttack,
                },
                None => TaskOrder::Nothing,
            },
            None => TaskOrder::Nothing,
        },
        _ => TaskOrder::Nothing,
    }
}

/// What an actor's task asks of the world, given its first target and the
/// first cell of that target when it is an entity with a position.
pub fn task_order(
    map: &TileMap,
    task: Task,
    first_target: Option<Target>,
    target_cell: Option<Point>,
) -> (r: TaskOrder)
    requires
        map.wf(),
        task_supported(task),
        task == Task::Attack ==> match first_target {
            Some(Target::LOCATION(l)) => map.point_in_bounds(l),
            Some(Target::ENTITY(_)) => match target_cell {
                Some(c) => map.point_in_bounds(c),
                None => true,
            },
            None => true,
        },
    ensures
        r == spec_task_order(map, task, first_target, target_cell),
{
    match task {
        Task::Fish => TaskOrder::Fish,
        Task::Explore => TaskOrder::Effect { tile_idx: 0, kind: TaskEffect::Explore },
        Task::MoveTo => match first_target {
            Some(t) => TaskOrder::MoveTowards { target: t },
            None => TaskOrder::Nothing,
        },
        Task::Attack => match first_target {
            Some(Target::LOCATION(l)) => TaskOrder::Effect {
                tile_idx: map.point_idx(l),
                kind: TaskEffect::MoveOrAttack,
            },
            Some(Target::ENTITY(_)) => match target_cell {
                Some(c) => TaskOrder::Effect { tile_idx: map.point_idx(c), kind: TaskEffect::MoveOrAttack },
                None => TaskOrder::Nothing,
            },
            None => TaskOrder::Nothing,
        },
        _ => TaskOrder::Nothing,
    }
}

/// The effect that an effect order queues.
pub fn order_effect(tile_idx: usize, kind: TaskEffect) -> (e: EffectType)
    ensures
        kind == TaskEffect::Explore ==> e == (EffectType::Explore {}),
        kind == TaskEffect::MoveOrAttack ==> e == (EffectType::MoveOrAttack { tile_idx }),
{
    match kind {
        TaskEffect::Explore => EffectType::Explore {},
        TaskEffect::MoveOrAttack => EffectType::MoveOrAttack { tile_idx },
    }
}

} // verus!
