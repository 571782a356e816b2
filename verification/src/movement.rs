use vstd::prelude::*;
use crate::components::Position;
use crate::engine::GameMode;
use crate::geometry::{normalize, spec_sign, Point};
use crate::map::{EntityId, TileMap, TileType};

use crate::map::contains_id;

verus! {

/// How a creature gets around: on land or in water.
#[derive(Clone, Copy, PartialEq, Eq, Structural, Debug)]
pub enum LocomotionType {
    Ground,
    Water,
}

/// The cells `cells` moved by `dp`.
pub open spec fn spec_shifted(cells: Seq<Point>, dp: Point) -> Seq<Point> {
    Seq::new(cells.len(), |i: int| Point { x: (cells[i].x + dp.x) as i32, y: (cells[i].y + dp.y) as i32 })
}

/// Whether `e` may enter cell `d`: walkers need an unblocked cell,
/// swimmers need water, and no other blocking entity may stand there.
pub open spec fn spec_cell_passable(
    map: &TileMap,
    entity: EntityId,
    d: int,
    loco: LocomotionType,
    blockers: Seq<EntityId>,
) -> bool {
    &&& !(loco == LocomotionType::Ground && map.blocked@[d])
    &&& !(loco == LocomotionType::Water && map.tiles@[d] != TileType::Water)
    &&& forall|k: int|
        0 <= k < map.tile_content@[d]@.len() ==> (#[trigger] map.tile_content@[d]@[k] == entity
            || !blockers.contains(map.tile_content@[d]@[k]))
}

/// Whether an entity with locomotion `loco` covering `cells` can step by
/// `dp`: it must move at all, and every cell it would enter must be
/// passable.
pub open spec fn spec_can_move(
    map: &TileMap,
    entity: EntityId,
    cells: Seq<Point>,
    dp: Point,
    loco: Option<LocomotionType>,
    blockers: Seq<EntityId>,
) -> bool {
    match loco {
        None => false,
        Some(l) => forall|i: int|
            0 <= i < cells.len() ==> spec_cell_passable(
                map,
                entity,
                map.spec_point_idx(#[trigger] spec_shifted(cells, dp)[i]),
                l,
                blockers,
            ),
    }
}

/// The cells after a step stay on the map.
pub open spec fn step_on_map(map: &TileMap, cells: Seq<Point>, dp: Point) -> bool {
    &&& -1 <= dp.x <= 1
    &&& -1 <= dp.y <= 1
    &&& forall|i: int| 0 <= i < cells.len() ==> map.point_in_bounds(#[trigger] cells[i])
    &&& forall|i: int| 0 <= i < cells.len() ==> map.point_in_bounds(#[trigger] spec_shifted(cells, dp)[i])
}

/// Whether an entity can step by `dp`.
#[verifier::loop_isolation(false)]
pub fn can_move(
    map: &TileMap,
    entity: EntityId,
    pos: &Position,
    dp: Point,
    loco: Option<LocomotionType>,
    blockers: &Vec<EntityId>,
) -> (r: bool)
    requires
        map.wf(),
        step_on_map(map, pos.ps@, dp),
    ensures
        r == spec_can_move(map, entity, pos.ps@, dp, loco, blockers@),
{
    let l = match loco {
        None => return false,
        Some(l) => l,
    };
    let mut i: usize = 0;
    while i < pos.ps.len()
        invariant
            map.wf(),
            step_on_map(map, pos.ps@, dp),
            i <= pos.ps@.len(),
            forall|k: int|
                0 <= k < i ==> spec_cell_passable(
                    map,
                    entity,
                    map.spec_point_idx(#[trigger] spec_shifted(pos.ps@, dp)[k]),
                    l,
                    blockers@,
                ),
        decreases pos.ps.len() - i,
    {
        let c = pos.ps[i];
        assert(map.point_in_bounds(spec_shifted(pos.ps@, dp)[i as int]));
        let dest_idx = map.xy_idx(c.x + dp.x, c.y + dp.y);
        assert(dest_idx == map.spec_point_idx(spec_shifted(pos.ps@, dp)[i as int]));
        if l == LocomotionType::Ground && map.blocks_movement(dest_idx) {
            assert(!spec_cell_passable(map, entity, dest_idx as int, l, blockers@));
            return false;
        }
        if l == LocomotionType::Water && map.tiles[dest_idx] != TileType::Water {
            assert(!spec_cell_passable(map, entity, dest_idx as int, l, blockers@));
            return false;
        }
        let content = &map.tile_content[dest_idx];
        let mut j: usize = 0;
        while j < content.len()
            invariant
                j <= content@.len(),
                content@ == map.tile_content@[dest_idx as int]@,
                forall|k: int|
                    0 <= k < j ==> (#[trigger] content@[k] == entity || !blockers@.contains(
                        content@[k],
                    )),
            decreases content.len() - j,
        {
            let e = content[j];
            if e != entity {
                let mut b: usize = 0;
                while b < blockers.len()
                    invariant
                        b <= blockers@.len(),
                        forall|q: int| 0 <= q < b ==> blockers@[q] != e,
                    decreases blockers.len() - b,
                {
                    if blockers[b] == e {
                        assert(blockers@[b as int] == e);
                        assert(blockers@.contains(e));
                        assert(map.tile_content@[dest_idx as int]@[j as int] == e);
                        assert(!spec_cell_passable(map, entity, dest_idx as int, l, blockers@));
                        return false;
                    }
                    b = b + 1;
                }
            }
            j = j + 1;
        }
        assert(spec_cell_passable(map, entity, dest_idx as int, l, blockers@));
        i = i + 1;
    }
    true
}

/// The first entity in `content` other than `entity` that can fight.
pub open spec fn spec_first_fighter(content: Seq<EntityId>, entity: EntityId, fighters: Seq<EntityId>) -> Option<EntityId>
    decreases content.len(),
{
    if content.len() == 0 {
        None
    } else if content[0] != entity && fighters.contains(content[0]) {
        Some(content[0])
    } else {
        spec_first_fighter(content.drop_first(), entity, fighters)
    }
}

/// The first fighter found in the cells an entity would enter, cell by
/// cell; none when the entity itself cannot fight.
pub open spec fn spec_get_target(
    map: &TileMap,
    entity: EntityId,
    dests: Seq<Point>,
    fighters: Seq<EntityId>,
) -> Option<EntityId>
    decreases dests.len(),
{
    if !fighters.contains(entity) || dests.len() == 0 {
        None
    } else {
        match spec_first_fighter(map.tile_content@[map.spec_point_idx(dests[0])]@, entity, fighters) {
            Some(t) => Some(t),
            None => spec_get_target(map, entity, dests.drop_first(), fighters),
        }
    }
}

/// The creature that stands in the way of a step by `dp` and can be
/// fought (`fighters` are the entities with combat stats).
#[verifier::loop_isolation(false)]
pub fn get_target(
    map: &TileMap,
    entity: EntityId,
    pos: &Position,
    dp: Point,
    fighters: &Vec<EntityId>,
) -> (r: Option<EntityId>)
    requires
        map.wf(),
        step_on_map(map, pos.ps@, dp),
    ensures
        r == spec_get_target(map, entity, spec_shifted(pos.ps@, dp), fighters@),
{
    if !contains_id(fighters, entity) {
        return None;
    }
    let ghost dests = spec_shifted(pos.ps@, dp);
    let mut i: usize = 0;
    assert(dests.skip(0) =~= dests);
    while i < pos.ps.len()
        invariant
            map.wf(),
            step_on_map(map, pos.ps@, dp),
            fighters@.contains(entity),
            dests == spec_shifted(pos.ps@, dp),
            i <= pos.ps@.len(),
            spec_get_target(map, entity, dests, fighters@) == spec_get_target(
                map,
                entity,
                dests.skip(i as int),
                fighters@,
            ),
        decreases pos.ps.len() - i,
    {
        let c = pos.ps[i];
        assert(map.point_in_bounds(dests[i as int]));
        let dest_idx = map.xy_idx(c.x + dp.x, c.y + dp.y);
        assert(dest_idx == map.spec_point_idx(dests[i as int]));
        assert(dests.skip(i as int)[0] == dests[i as int]);
        assert(dests.skip(i as int).drop_first() =~= dests.skip(i + 1));
        let content = &map.tile_content[dest_idx];
        let mut j: usize = 0;
        assert(content@.skip(0) =~= content@);
        while j < content.len()
            invariant
                j <= content@.len(),
                content@ == map.tile_content@[dest_idx as int]@,
                spec_first_fighter(content@, entity, fighters@) == spec_first_fighter(
                    content@.skip(j as int),
                    entity,
                    fighters@,
                ),
            decreases content.len() - j,
        {
            assert(content@.skip(j as int)[0] == content@[j as int]);
            assert(content@.skip(j as int).drop_first() =~= content@.skip(j + 1));
            let e = content[j];
            if e != entity && contains_id(fighters, e) {
                return Some(e);
            }
            j = j + 1;
        }
        assert(content@.skip(content.len() as int) =~= Seq::<EntityId>::empty());
        i = i + 1;
    }
    assert(dests.skip(pos.ps.len() as int) =~= Seq::<Point>::empty());
    None
}

/// The blocked flags after the entity's cells move one by one: each old
/// cell is freed, then the new one marked.
pub open spec fn spec_move_blocked(blocked: Seq<bool>, olds: Seq<int>, news: Seq<int>, k: nat) -> Seq<bool>
    decreases k,
{
    if k == 0 {
        blocked
    } else {
        spec_move_blocked(blocked, olds, news, (k - 1) as nat).update(olds[k - 1], false).update(
            news[k - 1],
            true,
        )
    }
}

/// The map indices of cells.
pub open spec fn spec_idxs(map: &TileMap, cells: Seq<Point>) -> Seq<int> {
    Seq::new(cells.len(), |i: int| map.spec_point_idx(cells[i]))
}

/// What a step ends in: whom the mover attacks, and whether it moved.
#[derive(Clone, Copy, PartialEq, Eq, Structural, Debug)]
pub struct MoveOutcome {
    pub attack: Option<EntityId>,
    pub moved: bool,
}

/// What a mover is and what it knows of the creatures around.
pub struct Mover {
    pub entity: EntityId,
    pub is_player: bool,
    pub loco: Option<LocomotionType>,
    /// The entities that block movement.
    pub blockers: Vec<EntityId>,
    /// The entities that can fight.
    pub fighters: Vec<EntityId>,
}

/// The step towards cell `target` from `from`: one cell in each axis, in
/// the target's direction.
pub open spec fn spec_step(from: Point, target: Point) -> Point {
    Point { x: spec_sign(target.x - from.x) as i32, y: spec_sign(target.y - from.y) as i32 }
}

/// Tries to move `pos` by `dp` (at most one cell in each axis), attacking
/// what stands in the way when `attack` is set. In the simulation the
/// player is a camera: it moves anywhere and never attacks. Others move
/// only where they can, and the map's blocked flags follow them.
pub fn try_move_entity(
    map: &mut TileMap,
    pos: &mut Position,
    mover: &Mover,
    dp: Point,
    attack: bool,
    mode: GameMode,
) -> (r: MoveOutcome)
    requires
        old(map).wf(),
        old(pos).ps@.len() > 0,
        -1 <= dp.x <= 1,
        -1 <= dp.y <= 1,
        step_on_map(&*old(map), old(pos).ps@, dp),
    ensures
        ({
            let is_camera = mover.is_player && mode == GameMode::Sim;
            let can = spec_can_move(&*old(map), mover.entity, old(pos).ps@, dp, mover.loco, mover.blockers@);
            &&& r.attack == if !is_camera && attack {
                spec_get_target(&*old(map), mover.entity, spec_shifted(old(pos).ps@, dp), mover.fighters@)
            } else {
                None
            }
            &&& r.moved == (is_camera || can)
            &&& r.moved ==> final(pos).ps@ == spec_shifted(old(pos).ps@, dp)
            &&& r.moved ==> final(map).blocked@ == spec_move_blocked(
                old(map).blocked@,
                spec_idxs(&*old(map), old(pos).ps@),
                spec_idxs(&*old(map), spec_shifted(old(pos).ps@, dp)),
                old(pos).ps@.len(),
            )
            &&& !r.moved ==> *final(pos) == *old(pos) && final(map).blocked@ == old(map).blocked@
        }),
        final(map).wf(),
        final(map).width == old(map).width,
        final(map).height == old(map).height,
        final(map).depth == old(map).depth,
        final(map).tiles@ == old(map).tiles@,
        final(map).tile_content@ == old(map).tile_content@,
        final(map).fire_turns@ == old(map).fire_turns@,
{
    let canmove = can_move(map, mover.entity, pos, dp, mover.loco, &mover.blockers);
    let is_camera = mover.is_player && mode == GameMode::Sim;
    let mut target: Option<EntityId> = None;
    if !is_camera && attack {
        target = get_target(map, mover.entity, pos, dp, &mover.fighters);
    }
    if is_camera || canmove {
        let ghost old_cells = pos.ps@;
        let ghost old_blocked = map.blocked@;
        let ghost olds = spec_idxs(&*map, old_cells);
        let ghost news = spec_idxs(&*map, spec_shifted(old_cells, dp));
        let n = pos.ps.len();
        let mut i: usize = 0;
        while i < n
            invariant
                map.wf(),
                n == pos.ps@.len() == old_cells.len(),
                i <= n,
                -1 <= dp.x <= 1,
                -1 <= dp.y <= 1,
                forall|k: int| 0 <= k < n ==> map.point_in_bounds(#[trigger] old_cells[k]),
                forall|k: int| 0 <= k < n ==> map.point_in_bounds(#[trigger] spec_shifted(old_cells, dp)[k]),
                olds == spec_idxs(&*map, old_cells),
                news == spec_idxs(&*map, spec_shifted(old_cells, dp)),
                forall|k: int| 0 <= k < i ==> pos.ps@[k] == #[trigger] spec_shifted(old_cells, dp)[k],
                forall|k: int| i <= k < n ==> pos.ps@[k] == #[trigger] old_cells[k],
                map.blocked@ == spec_move_blocked(old_blocked, olds, news, i as nat),
                map.width == old(map).width,
                map.height == old(map).height,
                map.depth == old(map).depth,
                map.tiles@ == old(map).tiles@,
                map.tile_content@ == old(map).tile_content@,
                map.fire_turns@ == old(map).fire_turns@,
            decreases n - i,
        {
            let c = pos.ps[i];
            assert(c == old_cells[i as int]);
            let oldidx = map.point_idx(c);
            let moved = Point { x: c.x + dp.x, y: c.y + dp.y };
            assert(moved == spec_shifted(old_cells, dp)[i as int]);
            pos.ps.set(i, moved);
            let idx = map.point_idx(moved);
            map.blocked.set(oldidx, false);
            map.blocked.set(idx, true);
            i = i + 1;
        }
        assert(pos.ps@ =~= spec_shifted(old_cells, dp));
        return MoveOutcome { attack: target, moved: true };
    }
    MoveOutcome { attack: target, moved: false }
}

/// Tries to step `pos` towards cell `tile_idx`, attacking what stands
/// there when `attack` is set; as `try_move_entity` with the step in the
/// cell's direction.
pub fn try_move_or_attack(
    map: &mut TileMap,
    pos: &mut Position,
    mover: &Mover,
    tile_idx: usize,
    attack: bool,
    mode: GameMode,
) -> (r: MoveOutcome)
    requires
        old(map).wf(),
        tile_idx < old(map).size(),
        old(pos).ps@.len() > 0,
        step_on_map(
            &*old(map),
            old(pos).ps@,
            spec_step(old(pos).ps@[0], old(map).spec_idx_point(tile_idx as int)),
        ),
    ensures
        ({
            let dp = spec_step(old(pos).ps@[0], old(map).spec_idx_point(tile_idx as int));
            let is_camera = mover.is_player && mode == GameMode::Sim;
            let can = spec_can_move(&*old(map), mover.entity, old(pos).ps@, dp, mover.loco, mover.blockers@);
            &&& r.attack == if !is_camera && attack {
                spec_get_target(&*old(map), mover.entity, spec_shifted(old(pos).ps@, dp), mover.fighters@)
            } else {
                None
            }
            &&& r.moved == (is_camera || can)
            &&& r.moved ==> final(pos).ps@ == spec_shifted(old(pos).ps@, dp)
            &&& r.moved ==> final(map).blocked@ == spec_move_blocked(
                old(map).blocked@,
                spec_idxs(&*old(map), old(pos).ps@),
                spec_idxs(&*old(map), spec_shifted(old(pos).ps@, dp)),
                old(pos).ps@.len(),
            )
            &&& !r.moved ==> *final(pos) == *old(pos) && final(map).blocked@ == old(map).blocked@
        }),
        final(map).wf(),
        final(map).width == old(map).width,
        final(map).height == old(map).height,
        final(map).depth == old(map).depth,
        final(map).tiles@ == old(map).tiles@,
        final(map).tile_content@ == old(map).tile_content@,
        final(map).fire_turns@ == old(map).fire_turns@,
{
    let tp = map.idx_point(tile_idx);
    let p0 = pos.ps[0];
    proof {
        assert(map.point_in_bounds(pos.ps@[0]));
    }
    let dp = Point { x: normalize(tp.x - p0.x), y: normalize(tp.y - p0.y) };
    try_move_entity(map, pos, mover, dp, attack, mode)
}

/// The blocked flags follow a one-cell mover: after its move the cell it
/// entered is blocked, the cell it left is free (when it moved at all),
/// and every other cell keeps its flag.
pub proof fn lemma_move_blocks_new_cell(blocked: Seq<bool>, old_idx: int, new_idx: int)
    requires
        0 <= old_idx < blocked.len(),
        0 <= new_idx < blocked.len(),
    ensures
        ({
            let b = spec_move_blocked(blocked, seq![old_idx], seq![new_idx], 1);
            &&& b.len() == blocked.len()
            &&& b[new_idx]
            &&& old_idx != new_idx ==> !b[old_idx]
            &&& forall|i: int| 0 <= i < blocked.len() && i != old_idx && i != new_idx ==> b[i] == blocked[i]
        }),
{
    assert(spec_move_blocked(blocked, seq![old_idx], seq![new_idx], 0) == blocked);
}

/// No creature steps where another blocking entity stands: when a cell
/// that it would enter holds an entity other than itself that is among the
/// blockers, it cannot move (and `try_move_entity` leaves it where it is,
/// unless it is the simulation's camera).
pub proof fn lemma_blocker_stops_move(
    map: &TileMap,
    entity: EntityId,
    cells: Seq<Point>,
    dp: Point,
    loco: Option<LocomotionType>,
    blockers: Seq<EntityId>,
    i: int,
    k: int,
)
    requires
        0 <= i < cells.len(),
        0 <= k < map.tile_content@[map.spec_xy_idx(
            (cells[i].x + dp.x) as i32 as int,
            (cells[i].y + dp.y) as i32 as int,
        )]@.len(),
        map.tile_content@[map.spec_xy_idx((cells[i].x + dp.x) as i32 as int, (cells[i].y + dp.y) as i32 as int)]@[k]
            != entity,
        blockers.contains(
            map.tile_content@[map.spec_xy_idx(
                (cells[i].x + dp.x) as i32 as int,
                (cells[i].y + dp.y) as i32 as int,
            )]@[k],
        ),
    ensures
        !spec_can_move(map, entity, cells, dp, loco, blockers),
{
    if let Some(l) = loco {
        let p = spec_shifted(cells, dp)[i];
        assert(p == Point { x: (cells[i].x + dp.x) as i32, y: (cells[i].y + dp.y) as i32 });
        assert(!spec_cell_passable(map, entity, map.spec_point_idx(p), l, blockers));
    }
}

/// A swimmer only enters water and a walker only enters cells that are
/// not blocked: a step that would take one of its cells elsewhere is
/// refused.
pub proof fn lemma_locomotion_limits_move(
    map: &TileMap,
    entity: EntityId,
    cells: Seq<Point>,
    dp: Point,
    loco: Option<LocomotionType>,
    blockers: Seq<EntityId>,
    i: int,
)
    requires
        0 <= i < cells.len(),
    ensures
        loco == Some(LocomotionType::Water) && map.tiles@[map.spec_xy_idx(
            (cells[i].x + dp.x) as i32 as int,
            (cells[i].y + dp.y) as i32 as int,
        )] != TileType::Water ==> !spec_can_move(map, entity, cells, dp, loco, blockers),
        loco == Some(LocomotionType::Ground) && map.blocked@[map.spec_xy_idx(
            (cells[i].x + dp.x) as i32 as int,
            (cells[i].y + dp.y) as i32 as int,
        )] ==> !spec_can_move(map, entity, cells, dp, loco, blockers),
        loco is None ==> !spec_can_move(map, entity, cells, dp, loco, blockers),
{
    let p = spec_shifted(cells, dp)[i];
    assert(p == Point { x: (cells[i].x + dp.x) as i32, y: (cells[i].y + dp.y) as i32 });
}

} // verus!
