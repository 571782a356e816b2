use vstd::prelude::*;
use crate::engine::{spec_logged, GameLog};
use crate::geometry::Point;
use crate::map::{EntityId, TileMap, TileType};

verus! {

/// The last item of `items` (each with its first cell) that lies at `p`.
pub open spec fn spec_item_here(items: Seq<(EntityId, Point)>, p: Point) -> Option<EntityId>
    decreases items.len(),
{
    if items.len() == 0 {
        None
    } else if items.last().1 == p {
        Some(items.last().0)
    } else {
        spec_item_here(items.drop_last(), p)
    }
}

/// The item the player picks up from the cell at `player_pos`, among
/// `items` (each with its first cell): the last one lying there. With
/// nothing there, the log says so.
pub fn get_item(items: &Vec<(EntityId, Point)>, player_pos: Point, log: &mut GameLog) -> (r: Option<EntityId>)
    ensures
        r == spec_item_here(items@, player_pos),
        r is Some ==> final(log).messages@ == old(log).messages@,
        r is None ==> spec_logged(
            old(log).messages@,
            final(log).messages@,
            "There is nothing to pick up here"@,
        ),
{
    let mut target: Option<EntityId> = None;
    let mut i: usize = 0;
    while i < items.len()
        invariant
            i <= items@.len(),
            target == spec_item_here(items@.take(i as int), player_pos),
        decreases items.len() - i,
    {
        assert(items@.take(i + 1).drop_last() =~= items@.take(i as int));
        let (id, p) = items[i];
        if p.x == player_pos.x && p.y == player_pos.y {
            target = Some(id);
        }
        i = i + 1;
    }
    assert(items@.take(items.len() as int) =~= items@);
    if target.is_none() {
        log.log("There is nothing to pick up here".to_owned());
    }
    target
}

/// Whether the player, at `player_pos`, can take the stairs down: it
/// stands on them. Otherwise the log says there are none.
pub fn try_next_level(map: &TileMap, player_pos: Point, log: &mut GameLog) -> (r: bool)
    requires
        map.wf(),
        map.point_in_bounds(player_pos),
    ensures
        r == (map.tiles@[map.spec_point_idx(player_pos)] == TileType::StairsDown),
        r ==> final(log).messages@ == old(log).messages@,
        !r ==> spec_logged(old(log).messages@, final(log).messages@, "There is no stairs down here"@),
{
    let idx = map.xy_idx(player_pos.x, player_pos.y);
    if map.tiles[idx] == TileType::StairsDown {
        true
    } else {
        log.log("There is no stairs down here".to_owned());
        false
    }
}

} // verus!
