use vstd::prelude::*;
use std::collections::HashMap;
use crate::components::Position;
use crate::map::{EntityId, TileMap, TileType};

verus! {

broadcast use vstd::std_specs::hash::group_hash_axioms;

/// An entity placed on the map: its cells and whether it blocks the way.
pub struct Placed {
    pub id: EntityId,
    pub pos: Position,
    pub blocks: bool,
}

/// How many of `cells` lie on the map at index `c`.
pub open spec fn spec_cells_at(map: &TileMap, cells: Seq<crate::geometry::Point>, c: int) -> nat
    decreases cells.len(),
{
    if cells.len() == 0 {
        0
    } else {
        spec_cells_at(map, cells.drop_last(), c) + if map.point_in_bounds(cells.last()) && map.spec_point_idx(cells.last()) == c {
            1nat
        } else {
            0nat
        }
    }
}

/// The entities standing on cell `c` after indexing `es`: each entity in
/// order, once for each of its cells on `c`.
pub open spec fn spec_content(map: &TileMap, es: Seq<Placed>, c: int) -> Seq<EntityId>
    decreases es.len(),
{
    if es.len() == 0 {
        seq![]
    } else {
        spec_content(map, es.drop_last(), c) + Seq::new(
            spec_cells_at(map, es.last().pos.ps@, c),
            |i: int| es.last().id,
        )
    }
}

/// Whether some blocking entity of `es` covers cell `c` of the map.
pub open spec fn spec_blocked_by(map: &TileMap, es: Seq<Placed>, c: int) -> bool {
    exists|i: int, j: int|
        0 <= i < es.len() && 0 <= j < es[i].pos.ps@.len() && (#[trigger] es[i]).blocks
            && map.point_in_bounds(es[i].pos.ps@[j]) && map.spec_point_idx(#[trigger] es[i].pos.ps@[j]) == c
}

proof fn lemma_cells_at_push(map: &TileMap, cells: Seq<crate::geometry::Point>, k: int, c: int)
    requires
        0 <= k < cells.len(),
    ensures
        spec_cells_at(map, cells.take(k + 1), c) == spec_cells_at(map, cells.take(k), c) + if map.point_in_bounds(cells[k]) && map.spec_point_idx(cells[k]) == c {
            1nat
        } else {
            0nat
        },
{
    assert(cells.take(k + 1).drop_last() =~= cells.take(k));
}

/// Re-indexes the map: the entities on each cell are listed anew, and
/// every cell under a blocking entity is marked blocked. Cells of an
/// entity that lie off the map are skipped.
#[verifier::loop_isolation(false)]
pub fn run_map_indexing_system(map: &mut TileMap, es: &Vec<Placed>)
    requires
        old(map).wf(),
    ensures
        final(map).wf(),
        final(map).width == old(map).width,
        final(map).height == old(map).height,
        final(map).depth == old(map).depth,
        final(map).tiles@ == old(map).tiles@,
        final(map).fire_turns@ == old(map).fire_turns@,
        forall|c: int| 0 <= c < final(map).size() ==> #[trigger] final(map).tile_content@[c]@ == spec_content(&*old(map), es@, c),
        forall|c: int|
            0 <= c < final(map).size() ==> #[trigger] final(map).blocked@[c] == (old(map).blocked@[c]
                || spec_blocked_by(&*old(map), es@, c)),
{
    let ghost m0 = *map;
    let n = map.tile_content.len();
    let mut c: usize = 0;
    while c < n
        invariant
            map.wf(),
            n == map.size(),
            c <= n,
            map.width == m0.width && map.height == m0.height && map.depth == m0.depth,
            map.tiles@ == m0.tiles@ && map.fire_turns@ == m0.fire_turns@ && map.blocked@ == m0.blocked@,
            forall|k: int| 0 <= k < c ==> (#[trigger] map.tile_content@[k])@.len() == 0,
        decreases n - c,
    {
        map.tile_content.set(c, Vec::new());
        c = c + 1;
    }
    let mut i: usize = 0;
    assert(es@.take(0) =~= Seq::<Placed>::empty());
    while i < es.len()
        invariant
            map.wf(),
            n == map.size(),
            i <= es@.len(),
            map.width == m0.width && map.height == m0.height && map.depth == m0.depth,
            map.tiles@ == m0.tiles@ && map.fire_turns@ == m0.fire_turns@,
            forall|k: int|
                0 <= k < n ==> (#[trigger] map.tile_content@[k])@ == spec_content(&m0, es@.take(i as int), k),
            forall|k: int|
                0 <= k < n ==> #[trigger] map.blocked@[k] == (m0.blocked@[k] || spec_blocked_by(&m0, es@.take(i as int), k)),
        decreases es.len() - i,
    {
        let e = &es[i];
        let ghost before = map.tile_content@;
        let ghost before_blocked = map.blocked@;
        let mut j: usize = 0;
        while j < e.pos.ps.len()
            invariant
                map.wf(),
                n == map.size(),
                j <= e.pos.ps@.len(),
                map.width == m0.width && map.height == m0.height && map.depth == m0.depth,
                map.tiles@ == m0.tiles@ && map.fire_turns@ == m0.fire_turns@,
                forall|k: int|
                    0 <= k < n ==> (#[trigger] map.tile_content@[k])@ == before[k]@ + Seq::new(
                        spec_cells_at(&m0, e.pos.ps@.take(j as int), k),
                        |q: int| e.id,
                    ),
                forall|k: int|
                    0 <= k < n ==> #[trigger] map.blocked@[k] == (before_blocked[k] || (e.blocks
                        && exists|q: int| 0 <= q < j && m0.point_in_bounds(e.pos.ps@[q]) && m0.spec_point_idx(#[trigger] e.pos.ps@[q]) == k)),
            decreases e.pos.ps.len() - j,
        {
            let p = e.pos.ps[j];
            if !map.in_bounds(p.x, p.y) {
                proof {
                    assert forall|k: int| 0 <= k < n implies (#[trigger] map.tile_content@[k])@ == before[k]@
                        + Seq::new(spec_cells_at(&m0, e.pos.ps@.take(j + 1), k), |q: int| e.id) by {
                        lemma_cells_at_push(&m0, e.pos.ps@, j as int, k);
                        assert(Seq::new(spec_cells_at(&m0, e.pos.ps@.take(j + 1), k), |q: int| e.id)
                            =~= Seq::new(spec_cells_at(&m0, e.pos.ps@.take(j as int), k), |q: int| e.id));
                    }
                }
                j = j + 1;
                continue;
            }
            let idx = map.point_idx(p);
            if e.blocks {
                map.blocked.set(idx, true);
            }
            let mut cell = map.tile_content[idx].clone();
            assert(cell@ =~= map.tile_content@[idx as int]@) by {
                assert(vstd::std_specs::vec::vec_clone_trigger(map.tile_content@[idx as int], cell));
            }
            cell.push(e.id);
            map.tile_content.set(idx, cell);
            proof {
                assert forall|k: int| 0 <= k < n implies (#[trigger] map.tile_content@[k])@ == before[k]@
                    + Seq::new(spec_cells_at(&m0, e.pos.ps@.take(j + 1), k), |q: int| e.id) by {
                    lemma_cells_at_push(&m0, e.pos.ps@, j as int, k);
                    if k == idx as int {
                        assert(map.tile_content@[k]@ =~= before[k]@ + Seq::new(
                            spec_cells_at(&m0, e.pos.ps@.take(j + 1), k),
                            |q: int| e.id,
                        ));
                    } else {
                        assert(Seq::new(spec_cells_at(&m0, e.pos.ps@.take(j + 1), k), |q: int| e.id)
                            =~= Seq::new(spec_cells_at(&m0, e.pos.ps@.take(j as int), k), |q: int| e.id));
                    }
                }
            }
            j = j + 1;
        }
        proof {
            assert(es@.take(i + 1).drop_last() =~= es@.take(i as int));
            assert(e.pos.ps@.take(e.pos.ps@.len() as int) =~= e.pos.ps@);
            assert forall|k: int| 0 <= k < n implies (#[trigger] map.tile_content@[k])@ == spec_content(&m0, es@.take(i + 1), k) by {
                assert(es@.take(i + 1).last() == es@[i as int]);
            }
            assert forall|k: int| 0 <= k < n implies #[trigger] map.blocked@[k] == (m0.blocked@[k] || spec_blocked_by(&m0, es@.take(i + 1), k)) by {
                let t = es@.take(i + 1);
                if spec_blocked_by(&m0, t, k) {
                    let (a, b) = choose|a: int, b: int|
                        0 <= a < t.len() && 0 <= b < t[a].pos.ps@.len() && (#[trigger] t[a]).blocks
                            && m0.point_in_bounds(t[a].pos.ps@[b]) && m0.spec_point_idx(#[trigger] t[a].pos.ps@[b]) == k;
                    if a < i {
                        assert(es@.take(i as int)[a] == t[a]);
                        assert(spec_blocked_by(&m0, es@.take(i as int), k));
                    } else {
                        assert(t[a] == *e);
                    }
                }
                if spec_blocked_by(&m0, es@.take(i as int), k) {
                    let (a, b) = choose|a: int, b: int|
                        0 <= a < es@.take(i as int).len() && 0 <= b < es@.take(i as int)[a].pos.ps@.len()
                            && (#[trigger] es@.take(i as int)[a]).blocks
                            && m0.point_in_bounds(es@.take(i as int)[a].pos.ps@[b])
                            && m0.spec_point_idx(#[trigger] es@.take(i as int)[a].pos.ps@[b]) == k;
                    assert(t[a] == es@.take(i as int)[a]);
                }
                if e.blocks && exists|q: int| 0 <= q < e.pos.ps@.len() && m0.point_in_bounds(e.pos.ps@[q]) && m0.spec_point_idx(#[trigger] e.pos.ps@[q]) == k {
                    let q = choose|q: int| 0 <= q < e.pos.ps@.len() && m0.point_in_bounds(e.pos.ps@[q]) && m0.spec_point_idx(#[trigger] e.pos.ps@[q]) == k;
                    assert(t[i as int] == *e);
                    assert(t[i as int].pos.ps@[q] == e.pos.ps@[q]);
                }
            }
        }
        i = i + 1;
    }
    assert(es@.take(es.len() as int) =~= es@);
}

proof fn lemma_cell_counted(map: &TileMap, cells: Seq<crate::geometry::Point>, j: int)
    requires
        0 <= j < cells.len(),
        map.point_in_bounds(cells[j]),
    ensures
        spec_cells_at(map, cells, map.spec_point_idx(cells[j])) >= 1,
    decreases cells.len(),
{
    if j < cells.len() - 1 {
        assert(cells.drop_last()[j] == cells[j]);
        lemma_cell_counted(map, cells.drop_last(), j);
    }
}

/// After indexing, every entity is listed on each cell of the map it
/// covers.
pub proof fn lemma_indexed_entity_listed(map: &TileMap, es: Seq<Placed>, k: int, j: int)
    requires
        0 <= k < es.len(),
        0 <= j < es[k].pos.ps@.len(),
        map.point_in_bounds(es[k].pos.ps@[j]),
    ensures
        spec_content(map, es, map.spec_point_idx(es[k].pos.ps@[j])).contains(es[k].id),
    decreases es.len(),
{
    let c = map.spec_point_idx(es[k].pos.ps@[j]);
    let rest = spec_content(map, es.drop_last(), c);
    let added = Seq::new(spec_cells_at(map, es.last().pos.ps@, c), |i: int| es.last().id);
    assert(spec_content(map, es, c) == rest + added);
    if k == es.len() - 1 {
        lemma_cell_counted(map, es.last().pos.ps@, j);
        assert((rest + added)[rest.len() as int] == es[k].id);
    } else {
        lemma_indexed_entity_listed(map, es.drop_last(), k, j);
        assert(es.drop_last()[k] == es[k]);
        let i = choose|i: int| 0 <= i < rest.len() && rest[i] == es[k].id;
        assert((rest + added)[i] == es[k].id);
    }
}

proof fn lemma_counted_cell(map: &TileMap, cells: Seq<crate::geometry::Point>, c: int)
    requires
        spec_cells_at(map, cells, c) >= 1,
    ensures
        exists|j: int|
            0 <= j < cells.len() && map.point_in_bounds(cells[j]) && map.spec_point_idx(#[trigger] cells[j]) == c,
    decreases cells.len(),
{
    if !(map.point_in_bounds(cells.last()) && map.spec_point_idx(cells.last()) == c) {
        lemma_counted_cell(map, cells.drop_last(), c);
        let j = choose|j: int|
            0 <= j < cells.drop_last().len() && map.point_in_bounds(cells.drop_last()[j]) && map.spec_point_idx(
                #[trigger] cells.drop_last()[j],
            ) == c;
        assert(cells[j] == cells.drop_last()[j]);
    } else {
        assert(map.spec_point_idx(cells[cells.len() - 1]) == c);
    }
}

/// After indexing, a cell lists only entities that cover it, with a cell
/// on the map.
pub proof fn lemma_listed_entity_covers(map: &TileMap, es: Seq<Placed>, c: int, x: EntityId)
    requires
        spec_content(map, es, c).contains(x),
    ensures
        exists|k: int, j: int|
            0 <= k < es.len() && 0 <= j < es[k].pos.ps@.len() && (#[trigger] es[k]).id == x
                && map.point_in_bounds(es[k].pos.ps@[j]) && map.spec_point_idx(#[trigger] es[k].pos.ps@[j]) == c,
    decreases es.len(),
{
    let rest = spec_content(map, es.drop_last(), c);
    let added = Seq::new(spec_cells_at(map, es.last().pos.ps@, c), |i: int| es.last().id);
    assert(spec_content(map, es, c) == rest + added);
    let i = choose|i: int| 0 <= i < (rest + added).len() && (rest + added)[i] == x;
    if i < rest.len() {
        assert(rest[i] == x);
        lemma_listed_entity_covers(map, es.drop_last(), c, x);
        let (k, j) = choose|k: int, j: int|
            0 <= k < es.drop_last().len() && 0 <= j < es.drop_last()[k].pos.ps@.len() && (#[trigger] es.drop_last()[k]).id == x
                && map.point_in_bounds(es.drop_last()[k].pos.ps@[j])
                && map.spec_point_idx(#[trigger] es.drop_last()[k].pos.ps@[j]) == c;
        assert(es[k] == es.drop_last()[k]);
    } else {
        let k = es.len() - 1;
        assert(added[i - rest.len()] == x);
        lemma_counted_cell(map, es.last().pos.ps@, c);
        let j = choose|j: int|
            0 <= j < es.last().pos.ps@.len() && map.point_in_bounds(es.last().pos.ps@[j]) && map.spec_point_idx(
                #[trigger] es.last().pos.ps@[j],
            ) == c;
        assert(es[k] == es.last());
        assert(es[k].pos.ps@[j] == es.last().pos.ps@[j]);
    }
}

/// What an entity remembers of the map: for each cell index it has seen,
/// the tile and the entities that stood there.
pub struct SpatialKnowledge {
    pub tiles: HashMap<usize, (TileType, Vec<EntityId>)>,
}

/// Records what the cells `idxs` hold now in `knowledge`.
pub fn remember_tiles(knowledge: &mut SpatialKnowledge, map: &TileMap, idxs: &Vec<usize>)
    requires
        map.wf(),
        forall|i: int| 0 <= i < idxs@.len() ==> #[trigger] idxs@[i] < map.size(),
    ensures
        final(knowledge).tiles@.dom() == old(knowledge).tiles@.dom() + idxs@.to_set(),
        forall|k: usize|
            #[trigger] final(knowledge).tiles@.contains_key(k) && !idxs@.contains(k)
                ==> final(knowledge).tiles@[k] == old(knowledge).tiles@[k],
        forall|i: int|
            0 <= i < idxs@.len() ==> {
                let k = #[trigger] idxs@[i];
                &&& final(knowledge).tiles@[k].0 == map.tiles@[k as int]
                &&& final(knowledge).tiles@[k].1@ == map.tile_content@[k as int]@
            },
{
    let mut i: usize = 0;
    while i < idxs.len()
        invariant
            map.wf(),
            i <= idxs@.len(),
            forall|q: int| 0 <= q < idxs@.len() ==> #[trigger] idxs@[q] < map.size(),
            knowledge.tiles@.dom() == old(knowledge).tiles@.dom() + idxs@.take(i as int).to_set(),
            forall|k: usize|
                #[trigger] knowledge.tiles@.contains_key(k) && !idxs@.take(i as int).contains(k) ==> knowledge.tiles@[k]
                    == old(knowledge).tiles@[k],
            forall|q: int|
                0 <= q < i ==> {
                    let k = #[trigger] idxs@[q];
                    &&& knowledge.tiles@[k].0 == map.tiles@[k as int]
                    &&& knowledge.tiles@[k].1@ == map.tile_content@[k as int]@
                },
        decreases idxs.len() - i,
    {
        let idx = idxs[i];
        let content = map.tile_content[idx].clone();
        assert(content@ =~= map.tile_content@[idx as int]@) by {
            assert(vstd::std_specs::vec::vec_clone_trigger(map.tile_content@[idx as int], content));
        }
        knowledge.tiles.insert(idx, (map.tiles[idx], content));
        proof {
            let t1 = idxs@.take(i + 1);
            assert(t1 =~= idxs@.take(i as int).push(idx));
            assert(t1.to_set() =~= idxs@.take(i as int).to_set().insert(idx)) by {
                assert forall|x: usize| #[trigger] t1.to_set().contains(x) == idxs@.take(i as int).to_set().insert(idx).contains(x) by {
                    if t1.contains(x) && x != idx {
                        let q = choose|q: int| 0 <= q < t1.len() && t1[q] == x;
                        assert(idxs@.take(i as int)[q] == x);
                    }
                    if idxs@.take(i as int).contains(x) {
                        let q = choose|q: int| 0 <= q < i && idxs@.take(i as int)[q] == x;
                        assert(t1[q] == x);
                    }
                    if x == idx {
                        assert(t1[i as int] == x);
                    }
                }
            }
            assert(knowledge.tiles@.dom() =~= old(knowledge).tiles@.dom() + t1.to_set());
            assert forall|k: usize| #[trigger] knowledge.tiles@.contains_key(k) && !t1.contains(k) implies knowledge.tiles@[k]
                == old(knowledge).tiles@[k] by {
                assert(k != idx) by {
                    if k == idx {
                        assert(t1[i as int] == idx);
                    }
                }
                if idxs@.take(i as int).contains(k) {
                    let q = choose|q: int| 0 <= q < i && idxs@.take(i as int)[q] == k;
                    assert(t1[q] == k);
                }
            }
        }
        i = i + 1;
    }
    assert(idxs@.take(idxs.len() as int) =~= idxs@);
}

/// Shows the whole map to an entity: it remembers every cell as it is now.
pub fn reveal_map(knowledge: &mut SpatialKnowledge, map: &TileMap)
    requires
        map.wf(),
    ensures
        forall|k: usize|
            (k as int) < map.size() ==> #[trigger] final(knowledge).tiles@.contains_key(k)
                && final(knowledge).tiles@[k].0 == map.tiles@[k as int]
                && final(knowledge).tiles@[k].1@ == map.tile_content@[k as int]@,
{
    let n = map.tiles.len();
    let mut idxs: Vec<usize> = Vec::new();
    let mut i: usize = 0;
    while i < n
        invariant
            n == map.size(),
            i <= n,
            idxs@.len() == i,
            forall|q: int| 0 <= q < i ==> #[trigger] idxs@[q] == q,
        decreases n - i,
    {
        idxs.push(i);
        i = i + 1;
    }
    remember_tiles(knowledge, map, &idxs);
    assert forall|k: usize| (k as int) < map.size() implies #[trigger] knowledge.tiles@.contains_key(k)
        && knowledge.tiles@[k].0 == map.tiles@[k as int] && knowledge.tiles@[k].1@
        == map.tile_content@[k as int]@ by {
        assert(idxs@[k as int] == k);
        assert(idxs@.contains(k));
        assert(idxs@.to_set().contains(k));
        assert(knowledge.tiles@.dom().contains(k));
        let kk = idxs@[k as int];
        assert(knowledge.tiles@[kk].0 == map.tiles@[kk as int]);
        assert(knowledge.tiles@[kk].1@ == map.tile_content@[kk as int]@);
    }
}

} // verus!
