use vstd::prelude::*;
use rand::seq::SliceRandom;
use rand::thread_rng;
use crate::components::Position;
use crate::geometry::Point;
use crate::map::{EntityId, TileMap, TileType};

verus! {

broadcast use vstd::seq_lib::group_to_multiset_ensures;

/// Puts the points in a random order.
///
/// Calls `SliceRandom::shuffle` of `rand` with the thread's generator,
/// which swaps elements in place (a Fisher-Yates shuffle); the claim is
/// only that the result holds the same points, each as often as before.
#[verifier::external_body]
fn shuffle_points(v: &mut Vec<Point>)
    ensures
        final(v)@.to_multiset() == old(v)@.to_multiset(),
{
    v.shuffle(&mut thread_rng());
}

/// The three cells a fish may swim to: east, south-east and north-east.
pub open spec fn spec_east_cells(p: Point) -> Seq<Point> {
    seq![
        Point { x: (p.x + 1) as i32, y: p.y },
        Point { x: (p.x + 1) as i32, y: (p.y + 1) as i32 },
        Point { x: (p.x + 1) as i32, y: (p.y - 1) as i32 },
    ]
}

/// Whether the cell at `p` is water.
pub open spec fn is_water(map: &TileMap, p: Point) -> bool {
    map.tiles@[map.spec_point_idx(p)] == TileType::Water
}

/// The first of `cands` that is water.
pub open spec fn spec_first_water(map: &TileMap, cands: Seq<Point>) -> Option<Point>
    decreases cands.len(),
{
    if cands.len() == 0 {
        None
    } else if is_water(map, cands[0]) {
        Some(cands[0])
    } else {
        spec_first_water(map, cands.drop_first())
    }
}

/// The map index of the first of `candidates` that is water, if any.
pub fn choose_fish_move(map: &TileMap, candidates: &Vec<Point>) -> (r: Option<usize>)
    requires
        map.wf(),
        forall|i: int| 0 <= i < candidates@.len() ==> map.point_in_bounds(#[trigger] candidates@[i]),
    ensures
        match spec_first_water(map, candidates@) {
            Some(p) => r == Some(map.spec_point_idx(p) as usize),
            None => r is None,
        },
{
    let mut i: usize = 0;
    assert(candidates@.skip(0) =~= candidates@);
    while i < candidates.len()
        invariant
            map.wf(),
            i <= candidates@.len(),
            forall|k: int| 0 <= k < candidates@.len() ==> map.point_in_bounds(#[trigger] candidates@[k]),
            spec_first_water(map, candidates@) == spec_first_water(map, candidates@.skip(i as int)),
        decreases candidates.len() - i,
    {
        assert(candidates@.skip(i as int).drop_first() =~= candidates@.skip(i + 1));
        assert(candidates@.skip(i as int)[0] == candidates@[i as int]);
        let idx = map.point_idx(candidates[i]);
        if map.tiles[idx] == TileType::Water {
            return Some(idx);
        }
        i = i + 1;
    }
    None
}

/// A fish and where it is.
pub struct FishInfo {
    pub id: EntityId,
    pub pos: Position,
}

/// What the fish do this turn: where the swimming ones go, and which ones
/// reached the east edge of the map.
pub struct FishTurn {
    pub moves: Vec<(EntityId, usize)>,
    pub at_edge: Vec<EntityId>,
}

/// A one-cell fish at the east edge (the last two columns).
pub open spec fn fish_at_edge(map: &TileMap, f: FishInfo) -> bool {
    f.pos.ps@.len() == 1 && f.pos.ps@[0].x >= map.width - 2
}

/// A one-cell fish away from the edge with some water to the east.
pub open spec fn fish_swims(map: &TileMap, f: FishInfo) -> bool {
    &&& f.pos.ps@.len() == 1
    &&& f.pos.ps@[0].x < map.width - 2
    &&& spec_first_water(map, spec_east_cells(f.pos.ps@[0])) is Some
}

/// A fish can be moved without leaving the map: away from the edge, its
/// three east cells are on the map.
pub open spec fn fish_ok(map: &TileMap, f: FishInfo) -> bool {
    f.pos.ps@.len() == 1 && f.pos.ps@[0].x < map.width - 2 ==> {
        let p = f.pos.ps@[0];
        &&& 0 <= p.x + 1
        &&& 1 <= p.y <= map.height - 2
    }
}

pub open spec fn spec_edge_fish(map: &TileMap, fish: Seq<FishInfo>) -> Seq<EntityId>
    decreases fish.len(),
{
    if fish.len() == 0 {
        seq![]
    } else {
        let rest = spec_edge_fish(map, fish.drop_last());
        if fish_at_edge(map, fish.last()) {
            rest.push(fish.last().id)
        } else {
            rest
        }
    }
}

/// The fish that swim this turn, with their cells.
pub open spec fn spec_swimmers(map: &TileMap, fish: Seq<FishInfo>) -> Seq<(EntityId, Point)>
    decreases fish.len(),
{
    if fish.len() == 0 {
        seq![]
    } else {
        let rest = spec_swimmers(map, fish.drop_last());
        if fish_swims(map, fish.last()) {
            rest.push((fish.last().id, fish.last().pos.ps@[0]))
        } else {
            rest
        }
    }
}

proof fn lemma_first_water_of_perm(map: &TileMap, a: Seq<Point>, b: Seq<Point>)
    requires
        a.to_multiset() == b.to_multiset(),
    ensures
        spec_first_water(map, a) is Some <==> spec_first_water(map, b) is Some,
        spec_first_water(map, a) is Some ==> b.contains(spec_first_water(map, a).unwrap()),
        spec_first_water(map, a) is Some ==> is_water(map, spec_first_water(map, a).unwrap()),
{
    lemma_first_water_exists(map, a);
    lemma_first_water_exists(map, b);
    if spec_first_water(map, a) is Some {
        assert(a.contains(spec_first_water(map, a).unwrap()));
        assert(b.to_multiset().count(spec_first_water(map, a).unwrap()) > 0);
    }
    if spec_first_water(map, b) is Some {
        let p = spec_first_water(map, b).unwrap();
        assert(b.contains(p));
        assert(a.to_multiset().count(p) > 0);
        assert(a.contains(p));
    }
}

proof fn lemma_first_water_exists(map: &TileMap, a: Seq<Point>)
    ensures
        spec_first_water(map, a) is Some <==> exists|i: int| 0 <= i < a.len() && is_water(map, #[trigger] a[i]),
        spec_first_water(map, a) is Some ==> a.contains(spec_first_water(map, a).unwrap()) && is_water(
            map,
            spec_first_water(map, a).unwrap(),
        ),
    decreases a.len(),
{
    if a.len() > 0 {
        lemma_first_water_exists(map, a.drop_first());
        if exists|i: int| 0 <= i < a.len() && is_water(map, #[trigger] a[i]) {
            let i = choose|i: int| 0 <= i < a.len() && is_water(map, #[trigger] a[i]);
            if i > 0 {
                assert(a.drop_first()[i - 1] == a[i]);
            }
        }
        if spec_first_water(map, a.drop_first()) is Some {
            let p = spec_first_water(map, a.drop_first()).unwrap();
            let j = choose|j: int| 0 <= j < a.drop_first().len() && a.drop_first()[j] == p;
            assert(a[j + 1] == p);
        }
        if exists|i: int| 0 <= i < a.drop_first().len() && is_water(map, #[trigger] a.drop_first()[i]) {
            let i = choose|i: int| 0 <= i < a.drop_first().len() && is_water(map, #[trigger] a.drop_first()[i]);
            assert(a[i + 1] == a.drop_first()[i]);
        }
    }
}

/// The fish's turn: fish that reached the east edge are reported; every
/// other one-cell fish swims, when it can, to one of its three east cells
/// that is water, chosen at random.
pub fn run_fish_ai(map: &TileMap, fish: &Vec<FishInfo>) -> (t: FishTurn)
    requires
        map.wf(),
        map.width < i32::MAX,
        forall|i: int| 0 <= i < fish@.len() ==> fish_ok(map, #[trigger] fish@[i]),
    ensures
        t.at_edge@ == spec_edge_fish(map, fish@),
        t.moves@.len() == spec_swimmers(map, fish@).len(),
        forall|i: int|
            0 <= i < t.moves@.len() ==> {
                let (id, p) = #[trigger] spec_swimmers(map, fish@)[i];
                &&& t.moves@[i].0 == id
                &&& exists|q: Point|
                    spec_east_cells(p).contains(q) && is_water(map, q) && t.moves@[i].1
                        == map.spec_point_idx(q)
            },
{
    let mut moves: Vec<(EntityId, usize)> = Vec::new();
    let mut at_edge: Vec<EntityId> = Vec::new();
    let mut i: usize = 0;
    while i < fish.len()
        invariant
            map.wf(),
            map.width < i32::MAX,
            i <= fish@.len(),
            forall|k: int| 0 <= k < fish@.len() ==> fish_ok(map, #[trigger] fish@[k]),
            at_edge@ == spec_edge_fish(map, fish@.take(i as int)),
            moves@.len() == spec_swimmers(map, fish@.take(i as int)).len(),
            forall|k: int|
                0 <= k < moves@.len() ==> {
                    let (id, p) = #[trigger] spec_swimmers(map, fish@.take(i as int))[k];
                    &&& moves@[k].0 == id
                    &&& exists|q: Point|
                        spec_east_cells(p).contains(q) && is_water(map, q) && moves@[k].1
                            == map.spec_point_idx(q)
                },
        decreases fish.len() - i,
    {
        let f = &fish[i];
        assert(fish@.take(i + 1).drop_last() =~= fish@.take(i as int));
        assert(fish@.take(i + 1).last() == fish@[i as int]);
        assert(fish_ok(map, fish@[i as int]));
        let ghost prev_swimmers = spec_swimmers(map, fish@.take(i as int));
        if f.pos.ps.len() == 1 {
            let p = f.pos.ps[0];
            if p.x >= map.width - 2 {
                at_edge.push(f.id);
            } else {
                let mut cands: Vec<Point> = vec![
                    Point { x: p.x + 1, y: p.y },
                    Point { x: p.x + 1, y: p.y + 1 },
                    Point { x: p.x + 1, y: p.y - 1 },
                ];
                assert(cands@ =~= spec_east_cells(p));
                let ghost east = cands@;
                shuffle_points(&mut cands);
                assert forall|k: int| 0 <= k < cands@.len() implies map.point_in_bounds(
                    #[trigger] cands@[k],
                ) by {
                    assert(cands@.contains(cands@[k]));
                    assert(east.to_multiset().count(cands@[k]) > 0);
                    assert(east.contains(cands@[k]));
                }
                proof {
                    lemma_first_water_of_perm(map, cands@, east);
                }
                let choice = choose_fish_move(map, &cands);
                if let Some(tile_idx) = choice {
                    let ghost old_moves = moves@;
                    moves.push((f.id, tile_idx));
                    proof {
                        let q = spec_first_water(map, cands@).unwrap();
                        assert(spec_east_cells(p).contains(q) && is_water(map, q));
                        lemma_first_water_exists(map, cands@);
                        let j = choose|j: int| 0 <= j < cands@.len() && cands@[j] == q;
                        assert(map.point_in_bounds(cands@[j]));
                        crate::map::lemma_xy_idx_in_range(
                            map.width as int,
                            map.height as int,
                            q.x as int,
                            q.y as int,
                        );
                        assert(tile_idx == map.spec_point_idx(q));
                        let cur = spec_swimmers(map, fish@.take(i + 1));
                        assert(cur == prev_swimmers.push((f.id, p)));
                        assert forall|k: int| 0 <= k < moves@.len() implies {
                            let (id, pp) = #[trigger] cur[k];
                            &&& moves@[k].0 == id
                            &&& exists|q: Point|
                                spec_east_cells(pp).contains(q) && is_water(map, q) && moves@[k].1
                                    == map.spec_point_idx(q)
                        } by {
                            if k < moves@.len() - 1 {
                                assert(cur[k] == prev_swimmers[k]);
                                assert(moves@[k] == old_moves[k]);
                            } else {
                                assert(cur[k] == (f.id, p));
                                assert(moves@[k].1 == map.spec_point_idx(q));
                                assert(spec_east_cells(p).contains(q) && is_water(map, q)
                                    && moves@[k].1 == map.spec_point_idx(q));
                            }
                        }
                    }
                } else {
                    assert(spec_swimmers(map, fish@.take(i + 1)) == prev_swimmers);
                }
            }
        }
        i = i + 1;
    }
    assert(fish@.take(fish.len() as int) =~= fish@);
    FishTurn { moves, at_edge }
}

} // verus!
