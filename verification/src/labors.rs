use vstd::prelude::*;
use crate::ai::{Intent, Target, Task};
use crate::components::{spec_item_type, Inventory, ItemType, ItemTypes};
use crate::geometry::Point;
use crate::map::{EntityId, TileMap, TileType};

use crate::map::contains_id;

verus! {

/// One entity that a villager knows of, with what it is.
#[derive(Clone, Copy, PartialEq, Eq, Structural, Debug)]
pub struct SeenEntity {
    pub id: EntityId,
    pub is_tree: bool,
    pub is_log: bool,
    pub is_mill: bool,
}

/// A candidate step of a labor, with its targets.
#[derive(Clone, Copy, PartialEq, Eq, Structural, Debug)]
pub enum LaborStep {
    GoToTree(EntityId),
    ChopTree(EntityId),
    PickUpWood(EntityId),
    MoveToLumberMill(EntityId),
    /// Deposit the carried log (first) at the lumber mill (second).
    DepositLogs(EntityId, EntityId),
    Wander,
    GoToWater(Point),
    FishAtWater(Point),
}

/// The name a step's intent carries.
pub open spec fn spec_step_name(s: LaborStep) -> Seq<char> {
    match s {
        LaborStep::GoToTree(_) => "go to tree"@,
        LaborStep::ChopTree(_) => "chop tree"@,
        LaborStep::PickUpWood(_) => "pick up wood"@,
        LaborStep::MoveToLumberMill(_) => "move to lumber mill"@,
        LaborStep::DepositLogs(_, _) => "deposit logs at lumber mill"@,
        LaborStep::Wander => "wander"@,
        LaborStep::GoToWater(_) => "go to water"@,
        LaborStep::FishAtWater(_) => "fish at water"@,
    }
}

/// The task a step's intent carries.
pub open spec fn spec_step_task(s: LaborStep) -> Task {
    match s {
        LaborStep::GoToTree(_) => Task::MoveTo,
        LaborStep::ChopTree(_) => Task::Destroy,
        LaborStep::PickUpWood(_) => Task::PickUpItem,
        LaborStep::MoveToLumberMill(_) => Task::MoveTo,
        LaborStep::DepositLogs(_, _) => Task::DepositItemToInventory,
        LaborStep::Wander => Task::Explore,
        LaborStep::GoToWater(_) => Task::MoveTo,
        LaborStep::FishAtWater(_) => Task::Fish,
    }
}

/// The targets a step's intent carries.
pub open spec fn spec_step_targets(s: LaborStep) -> Seq<Target> {
    match s {
        LaborStep::GoToTree(e) => seq![Target::ENTITY(e)],
        LaborStep::ChopTree(e) => seq![Target::ENTITY(e)],
        LaborStep::PickUpWood(e) => seq![Target::ENTITY(e)],
        LaborStep::MoveToLumberMill(e) => seq![Target::ENTITY(e)],
        LaborStep::DepositLogs(l, m) => seq![Target::ENTITY(l), Target::ENTITY(m)],
        LaborStep::Wander => Seq::empty(),
        LaborStep::GoToWater(p) => seq![Target::LOCATION(p)],
        LaborStep::FishAtWater(p) => seq![Target::LOCATION(p)],
    }
}

impl LaborStep {
    /// The intent of taking this step, dated `turn`.
    pub fn intent(&self, turn: i32) -> (i: Intent)
        ensures
            i.name@ == spec_step_name(*self),
            i.task == spec_step_task(*self),
            i.target@ == spec_step_targets(*self),
            i.turn == turn,
    {
        let mut target: Vec<Target> = Vec::new();
        let (name, task) = match *self {
            LaborStep::GoToTree(e) => {
                target.push(Target::ENTITY(e));
                ("go to tree".to_owned(), Task::MoveTo)
            },
            LaborStep::ChopTree(e) => {
                target.push(Target::ENTITY(e));
                ("chop tree".to_owned(), Task::Destroy)
            },
            LaborStep::PickUpWood(e) => {
                target.push(Target::ENTITY(e));
                ("pick up wood".to_owned(), Task::PickUpItem)
            },
            LaborStep::MoveToLumberMill(e) => {
                target.push(Target::ENTITY(e));
                ("move to lumber mill".to_owned(), Task::MoveTo)
            },
            LaborStep::DepositLogs(l, m) => {
                target.push(Target::ENTITY(l));
                target.push(Target::ENTITY(m));
                ("deposit logs at lumber mill".to_owned(), Task::DepositItemToInventory)
            },
            LaborStep::Wander => ("wander".to_owned(), Task::Explore),
            LaborStep::GoToWater(p) => {
                target.push(Target::LOCATION(p));
                ("go to water".to_owned(), Task::MoveTo)
            },
            LaborStep::FishAtWater(p) => {
                target.push(Target::LOCATION(p));
                ("fish at water".to_owned(), Task::Fish)
            },
        };
        Intent { name, task, target, turn }
    }
}

/// The trees among the seen entities, in the order seen.
pub open spec fn spec_trees(seen: Seq<SeenEntity>) -> Seq<EntityId>
    decreases seen.len(),
{
    if seen.len() == 0 {
        Seq::empty()
    } else if seen.last().is_tree {
        spec_trees(seen.drop_last()).push(seen.last().id)
    } else {
        spec_trees(seen.drop_last())
    }
}

/// The logs lying about among the seen entities, in the order seen.
pub open spec fn spec_logs(seen: Seq<SeenEntity>) -> Seq<EntityId>
    decreases seen.len(),
{
    if seen.len() == 0 {
        Seq::empty()
    } else if seen.last().is_log {
        spec_logs(seen.drop_last()).push(seen.last().id)
    } else {
        spec_logs(seen.drop_last())
    }
}

/// The lumber mills among the seen entities, each once (a mill covers
/// several cells), in the order first seen.
pub open spec fn spec_mills(seen: Seq<SeenEntity>) -> Seq<EntityId>
    decreases seen.len(),
{
    if seen.len() == 0 {
        Seq::empty()
    } else {
        let m = spec_mills(seen.drop_last());
        if seen.last().is_mill && !m.contains(seen.last().id) {
            m.push(seen.last().id)
        } else {
            m
        }
    }
}

/// The last carried item that is a log, if any.
pub open spec fn spec_last_log(items: Seq<EntityId>, kinds: Seq<(EntityId, ItemType)>) -> Option<EntityId>
    decreases items.len(),
{
    if items.len() == 0 {
        None
    } else if spec_item_type(kinds, items.last()) == Some(ItemType::Log) {
        Some(items.last())
    } else {
        spec_last_log(items.drop_last(), kinds)
    }
}

/// Going to each tree and chopping it, tree by tree.
pub open spec fn spec_tree_steps(trees: Seq<EntityId>) -> Seq<LaborStep>
    decreases trees.len(),
{
    if trees.len() == 0 {
        Seq::empty()
    } else {
        spec_tree_steps(trees.drop_last()).push(LaborStep::GoToTree(trees.last())).push(
            LaborStep::ChopTree(trees.last()),
        )
    }
}

/// Going to each mill and depositing the log there, mill by mill.
pub open spec fn spec_mill_steps(mills: Seq<EntityId>, log: EntityId) -> Seq<LaborStep>
    decreases mills.len(),
{
    if mills.len() == 0 {
        Seq::empty()
    } else {
        spec_mill_steps(mills.drop_last(), log).push(LaborStep::MoveToLumberMill(mills.last())).push(
            LaborStep::DepositLogs(log, mills.last()),
        )
    }
}

/// The candidate steps of wood gathering: with room in the inventory, go
/// to and chop every known tree and pick up every known log; carrying a
/// log, go to every known mill and deposit the last carried log there;
/// and always wander.
pub open spec fn spec_wood_plans(
    capacity: i32,
    items: Seq<EntityId>,
    kinds: Seq<(EntityId, ItemType)>,
    seen: Seq<SeenEntity>,
) -> Seq<LaborStep> {
    let space = capacity > items.len();
    let gather = if space {
        spec_tree_steps(spec_trees(seen)) + spec_logs(seen).map_values(
            |l: EntityId| LaborStep::PickUpWood(l),
        )
    } else {
        Seq::empty()
    };
    let deliver = match spec_last_log(items, kinds) {
        Some(l) => spec_mill_steps(spec_mills(seen), l),
        None => Seq::empty(),
    };
    gather + deliver + seq![LaborStep::Wander]
}

/// Whether the inventory has room for one more item.
fn has_room(inv: &Inventory) -> (r: bool)
    ensures
        r == (inv.capacity > inv.items@.len()),
{
    inv.capacity >= 0 && (inv.capacity as usize) > inv.items.len()
}

/// The candidate steps of the wood-gathering labor for a villager with
/// inventory `inv` who knows of the entities `seen`.
pub fn get_wood_gathering_actions(inv: &Inventory, kinds: &ItemTypes, seen: &Vec<SeenEntity>) -> (r: Vec<LaborStep>)
    ensures
        r@ == spec_wood_plans(inv.capacity, inv.items@, kinds.entries@, seen@),
{
    let space = has_room(inv);
    // the last carried log
    let mut last_log: Option<EntityId> = None;
    let mut i: usize = 0;
    while i < inv.items.len()
        invariant
            i <= inv.items@.len(),
            last_log == spec_last_log(inv.items@.take(i as int), kinds.entries@),
        decreases inv.items.len() - i,
    {
        assert(inv.items@.take(i + 1).drop_last() =~= inv.items@.take(i as int));
        if kinds.get(inv.items[i]) == Some(ItemType::Log) {
            last_log = Some(inv.items[i]);
        }
        i = i + 1;
    }
    assert(inv.items@.take(inv.items.len() as int) =~= inv.items@);
    // what is known around
    let mut trees: Vec<EntityId> = Vec::new();
    let mut logs: Vec<EntityId> = Vec::new();
    let mut mills: Vec<EntityId> = Vec::new();
    let mut k: usize = 0;
    while k < seen.len()
        invariant
            k <= seen@.len(),
            trees@ == spec_trees(seen@.take(k as int)),
            logs@ == spec_logs(seen@.take(k as int)),
            mills@ == spec_mills(seen@.take(k as int)),
        decreases seen.len() - k,
    {
        assert(seen@.take(k + 1).drop_last() =~= seen@.take(k as int));
        let s = seen[k];
        if s.is_tree {
            trees.push(s.id);
        }
        if s.is_log {
            logs.push(s.id);
        }
        if s.is_mill && !contains_id(&mills, s.id) {
            mills.push(s.id);
        }
        k = k + 1;
    }
    assert(seen@.take(seen.len() as int) =~= seen@);
    let mut plans: Vec<LaborStep> = Vec::new();
    if space {
        let mut t: usize = 0;
        while t < trees.len()
            invariant
                t <= trees@.len(),
                plans@ == spec_tree_steps(trees@.take(t as int)),
            decreases trees.len() - t,
        {
            assert(trees@.take(t + 1).drop_last() =~= trees@.take(t as int));
            plans.push(LaborStep::GoToTree(trees[t]));
            plans.push(LaborStep::ChopTree(trees[t]));
            t = t + 1;
        }
        assert(trees@.take(trees.len() as int) =~= trees@);
        let ghost before = plans@;
        let mut l: usize = 0;
        while l < logs.len()
            invariant
                l <= logs@.len(),
                plans@ == before + logs@.take(l as int).map_values(|x: EntityId| LaborStep::PickUpWood(x)),
            decreases logs.len() - l,
        {
            plans.push(LaborStep::PickUpWood(logs[l]));
            l = l + 1;
            assert(before + logs@.take(l as int).map_values(|x: EntityId| LaborStep::PickUpWood(x))
                =~= plans@);
        }
        assert(logs@.take(logs.len() as int) =~= logs@);
    }
    let ghost gathered = plans@;
    if let Some(log) = last_log {
        let mut m: usize = 0;
        while m < mills.len()
            invariant
                m <= mills@.len(),
                plans@ == gathered + spec_mill_steps(mills@.take(m as int), log),
            decreases mills.len() - m,
        {
            assert(mills@.take(m + 1).drop_last() =~= mills@.take(m as int));
            plans.push(LaborStep::MoveToLumberMill(mills[m]));
            plans.push(LaborStep::DepositLogs(log, mills[m]));
            m = m + 1;
        }
        assert(mills@.take(mills.len() as int) =~= mills@);
    } else {
        assert(gathered + Seq::<LaborStep>::empty() =~= gathered);
    }
    plans.push(LaborStep::Wander);
    plans
}

/// The cell just north of cell `idx`.
pub open spec fn spec_north_of(map: &TileMap, idx: int) -> Point {
    Point { x: map.spec_idx_point(idx).x, y: (map.spec_idx_point(idx).y - 1) as i32 }
}

/// Every remembered water tile has its northern neighbour on the map: it
/// lies below the top row, and at most one row below the map.
pub open spec fn known_water_fits(map: &TileMap, known: Seq<(usize, TileType)>) -> bool {
    forall|k: int|
        0 <= k < known.len() && (#[trigger] known[k]).1 == TileType::Water ==> map.width <= known[k].0 < map.size()
            + map.width
}

/// The fishing spots: for each remembered water tile whose northern
/// neighbour is not water on the map, that neighbour, in the order
/// remembered.
pub open spec fn spec_water_edges(map: &TileMap, known: Seq<(usize, TileType)>) -> Seq<Point>
    decreases known.len(),
{
    if known.len() == 0 {
        Seq::empty()
    } else {
        let rest = spec_water_edges(map, known.drop_last());
        let (idx, tile) = known.last();
        let above = spec_north_of(map, idx as int);
        if tile == TileType::Water && map.tiles@[map.spec_point_idx(above)] != TileType::Water {
            rest.push(above)
        } else {
            rest
        }
    }
}

/// Going to each fishing spot and fishing there, spot by spot.
pub open spec fn spec_water_steps(spots: Seq<Point>) -> Seq<LaborStep>
    decreases spots.len(),
{
    if spots.len() == 0 {
        Seq::empty()
    } else {
        spec_water_steps(spots.drop_last()).push(LaborStep::GoToWater(spots.last())).push(
            LaborStep::FishAtWater(spots.last()),
        )
    }
}

/// The fishing spots among the remembered tiles `known`.
pub fn water_edges(map: &TileMap, known: &Vec<(usize, TileType)>) -> (r: Vec<Point>)
    requires
        map.wf(),
        known_water_fits(map, known@),
    ensures
        r@ == spec_water_edges(map, known@),
{
    let mut spots: Vec<Point> = Vec::new();
    let mut k: usize = 0;
    while k < known.len()
        invariant
            map.wf(),
            known_water_fits(map, known@),
            k <= known@.len(),
            spots@ == spec_water_edges(map, known@.take(k as int)),
        decreases known.len() - k,
    {
        assert(known@.take(k + 1).drop_last() =~= known@.take(k as int));
        assert(known@.take(k + 1).last() == known@[k as int]);
        let (idx, tile) = known[k];
        if tile == TileType::Water {
            let w = map.width as usize;
            let x = idx % w;
            let y = idx / w;
            proof {
                assert(map.width <= idx < map.size() + map.width);
                vstd::arithmetic::div_mod::lemma_fundamental_div_mod(idx as int, w as int);
                assert(1 <= y <= map.height) by (nonlinear_arith)
                    requires
                        idx as int == w * y + x,
                        0 <= x < w,
                        w <= idx < w * map.height + w,
                        w > 0,
                ;
            }
            let above = Point { x: x as i32, y: (y - 1) as i32 };
            let aidx = idx - w;
            proof {
                assert(aidx as int == (y - 1) * w + x) by (nonlinear_arith)
                    requires
                        idx as int == w * y + x,
                        aidx as int == idx - w,
                ;
                assert(above == spec_north_of(map, idx as int));
                assert(aidx as int == map.spec_point_idx(above));
                assert(aidx < map.size());
            }
            if map.tiles[aidx] != TileType::Water {
                spots.push(above);
            }
        }
        k = k + 1;
    }
    assert(known@.take(known.len() as int) =~= known@);
    spots
}

/// The candidate steps of the fishing labor: with room in the inventory,
/// go to every fishing spot and fish there.
pub fn get_fishing_actions(inv: &Inventory, map: &TileMap, known: &Vec<(usize, TileType)>) -> (r: Vec<LaborStep>)
    requires
        map.wf(),
        known_water_fits(map, known@),
    ensures
        r@ == (if inv.capacity > inv.items@.len() {
            spec_water_steps(spec_water_edges(map, known@))
        } else {
            Seq::empty()
        }),
{
    let mut plans: Vec<LaborStep> = Vec::new();
    if has_room(inv) {
        let spots = water_edges(map, known);
        let mut i: usize = 0;
        while i < spots.len()
            invariant
                i <= spots@.len(),
                plans@ == spec_water_steps(spots@.take(i as int)),
            decreases spots.len() - i,
        {
            assert(spots@.take(i + 1).drop_last() =~= spots@.take(i as int));
            plans.push(LaborStep::GoToWater(spots[i]));
            plans.push(LaborStep::FishAtWater(spots[i]));
            i = i + 1;
        }
        assert(spots@.take(spots.len() as int) =~= spots@);
    }
    plans
}

/// The steps of delivering a log are moves to mills and deposits.
proof fn lemma_mill_steps_deliver(mills: Seq<EntityId>, log: EntityId)
    ensures
        forall|i: int|
            0 <= i < spec_mill_steps(mills, log).len() ==> (#[trigger] spec_mill_steps(mills, log)[i] is MoveToLumberMill
                || spec_mill_steps(mills, log)[i] is DepositLogs),
    decreases mills.len(),
{
    if mills.len() > 0 {
        lemma_mill_steps_deliver(mills.drop_last(), log);
    }
}

/// A villager with no room left in its inventory gathers nothing: its
/// only candidate steps are delivering logs to mills and wandering, and
/// wandering always comes last.
pub proof fn lemma_full_inventory_only_delivers(
    capacity: i32,
    items: Seq<EntityId>,
    kinds: Seq<(EntityId, ItemType)>,
    seen: Seq<SeenEntity>,
)
    requires
        capacity <= items.len(),
    ensures
        ({
            let plans = spec_wood_plans(capacity, items, kinds, seen);
            &&& plans.len() > 0
            &&& plans.last() == LaborStep::Wander
            &&& forall|i: int|
                0 <= i < plans.len() ==> (#[trigger] plans[i] is MoveToLumberMill || plans[i] is DepositLogs
                    || plans[i] is Wander)
        }),
{
    match spec_last_log(items, kinds) {
        Some(l) => lemma_mill_steps_deliver(spec_mills(seen), l),
        None => {},
    }
    let plans = spec_wood_plans(capacity, items, kinds, seen);
    let deliver = match spec_last_log(items, kinds) {
        Some(l) => spec_mill_steps(spec_mills(seen), l),
        None => Seq::empty(),
    };
    assert(plans =~= deliver.push(LaborStep::Wander));
}

} // verus!
