use vstd::prelude::*;
use crate::geometry::Point;
use crate::indexing::{remember_tiles, SpatialKnowledge};
use crate::map::{TileMap, TileType};

verus! {

broadcast use vstd::std_specs::hash::group_hash_axioms;

/// The points of `fov` that lie on the map, in order.
pub open spec fn spec_on_map(map: &TileMap, fov: Seq<Point>) -> Seq<Point> {
    fov.filter(|p: Point| map.point_in_bounds(p))
}

/// The cells of a field of view that lie on the map: what an entity sees.
pub fn visible_on_map(map: &TileMap, fov: &Vec<Point>) -> (r: Vec<Point>)
    ensures
        r@ == spec_on_map(map, fov@),
{
    let mut r: Vec<Point> = Vec::new();
    let mut i: usize = 0;
    while i < fov.len()
        invariant
            i <= fov@.len(),
            r@ == spec_on_map(map, fov@.take(i as int)),
        decreases fov.len() - i,
    {
        let p = fov[i];
        proof {
            reveal_with_fuel(Seq::filter, 1);
            assert(fov@.take(i + 1).drop_last() =~= fov@.take(i as int));
        }
        if map.in_bounds(p.x, p.y) {
            r.push(p);
        }
        i = i + 1;
    }
    assert(fov@.take(fov.len() as int) =~= fov@);
    r
}

/// Records in `knowledge` what the cells `visible` (all on the map) hold
/// now.
pub fn remember_visible(knowledge: &mut SpatialKnowledge, map: &TileMap, visible: &Vec<Point>)
    requires
        map.wf(),
        forall|i: int| 0 <= i < visible@.len() ==> map.point_in_bounds(#[trigger] visible@[i]),
    ensures
        final(knowledge).tiles@.dom() == old(knowledge).tiles@.dom() + visible@.map_values(
            |p: Point| map.spec_point_idx(p) as usize,
        ).to_set(),
        forall|k: usize|
            #[trigger] final(knowledge).tiles@.contains_key(k) && !visible@.map_values(
                |p: Point| map.spec_point_idx(p) as usize,
            ).contains(k) ==> final(knowledge).tiles@[k] == old(knowledge).tiles@[k],
        forall|i: int|
            0 <= i < visible@.len() ==> {
                let k = map.spec_point_idx(#[trigger] visible@[i]) as usize;
                &&& final(knowledge).tiles@[k].0 == map.tiles@[k as int]
                &&& final(knowledge).tiles@[k].1@ == map.tile_content@[k as int]@
            },
{
    let mut idxs: Vec<usize> = Vec::new();
    let mut i: usize = 0;
    while i < visible.len()
        invariant
            map.wf(),
            forall|q: int| 0 <= q < visible@.len() ==> map.point_in_bounds(#[trigger] visible@[q]),
            i <= visible@.len(),
            idxs@ == visible@.take(i as int).map_values(|p: Point| map.spec_point_idx(p) as usize),
            forall|q: int| 0 <= q < idxs@.len() ==> #[trigger] idxs@[q] < map.size(),
        decreases visible.len() - i,
    {
        let idx = map.point_idx(visible[i]);
        idxs.push(idx);
        i = i + 1;
        assert(idxs@ =~= visible@.take(i as int).map_values(|p: Point| map.spec_point_idx(p) as usize));
    }
    assert(visible@.take(visible.len() as int) =~= visible@);
    remember_tiles(knowledge, map, &idxs);
    assert forall|q: int| 0 <= q < visible@.len() implies {
        let k = map.spec_point_idx(#[trigger] visible@[q]) as usize;
        &&& knowledge.tiles@[k].0 == map.tiles@[k as int]
        &&& knowledge.tiles@[k].1@ == map.tile_content@[k as int]@
    } by {
        assert(idxs@[q] == map.spec_point_idx(visible@[q]) as usize);
    }
}

/// The cells among the first `k` that an explorer heads for: not walls,
/// and not remembered yet, in index order.
pub open spec fn spec_unexplored(tiles: Seq<TileType>, known: Set<usize>, k: int) -> Seq<usize>
    decreases k,
{
    if k <= 0 {
        Seq::empty()
    } else if tiles[k - 1] != TileType::Wall && !known.contains((k - 1) as usize) {
        spec_unexplored(tiles, known, k - 1).push((k - 1) as usize)
    } else {
        spec_unexplored(tiles, known, k - 1)
    }
}

/// The cells left to explore for an entity that remembers `knowledge`:
/// every cell that is not a wall and that it has not seen, in index
/// order. The explorer heads for the nearest of them.
pub fn unexplored_cells(map: &TileMap, knowledge: &SpatialKnowledge) -> (r: Vec<usize>)
    requires
        map.wf(),
    ensures
        r@ == spec_unexplored(map.tiles@, knowledge.tiles@.dom(), map.size()),
{
    let n = map.tiles.len();
    let mut r: Vec<usize> = Vec::new();
    let mut i: usize = 0;
    while i < n
        invariant
            n == map.tiles@.len(),
            i <= n,
            r@ == spec_unexplored(map.tiles@, knowledge.tiles@.dom(), i as int),
        decreases n - i,
    {
        if map.tiles[i] != TileType::Wall && !knowledge.tiles.contains_key(&i) {
            r.push(i);
        }
        i = i + 1;
    }
    r
}

} // verus!
