use vstd::prelude::*;
use std::collections::VecDeque;
use crate::components::Position;
use crate::geometry::Point;
use crate::map::{EntityId, TileMap};

verus! {

/// Whom or where an effect applies to.
#[derive(Clone, PartialEq, Eq, Debug)]
pub enum Targets {
    Tile { tile_idx: usize },
    Tiles { tiles: Vec<usize> },
    Single { target: EntityId },
    Area { target: Vec<EntityId> },
}

/// What an effect does.
#[derive(Clone, PartialEq, Eq, Debug)]
pub enum EffectType {
    Damage { amount: i32, target: Targets },
    Confusion { turns: i32, target: Targets },
    Fire { turns: i32, target: Targets },
    PickUp { entity: EntityId },
    Drop { entity: EntityId },
    Explore {},
    Heal { amount: i32, target: Targets },
    Move { tile_idx: usize },
    MoveOrAttack { tile_idx: usize },
    Wait {},
    Delete { entity: EntityId },
}

/// An effect waiting to be applied, with the entity that caused it.
#[derive(Clone, PartialEq, Eq, Debug)]
pub struct EffectSpawner {
    pub creator: Option<EntityId>,
    pub effect_type: EffectType,
}

/// The routine that applies an effect.
#[derive(Clone, Copy, PartialEq, Eq, Structural, Debug)]
pub enum EffectHandler {
    InflictDamage,
    InflictConfusion,
    InflictFire,
    PickUp,
    DropItem,
    Autoexplore,
    Heal,
    Move,
    MoveOrAttack,
    SkipTurn,
    Delete,
}

/// The routine for each kind of effect.
pub open spec fn spec_handler(e: EffectType) -> EffectHandler {
    match e {
        EffectType::Damage { .. } => EffectHandler::InflictDamage,
        EffectType::Confusion { .. } => EffectHandler::InflictConfusion,
        EffectType::Fire { .. } => EffectHandler::InflictFire,
        EffectType::PickUp { .. } => EffectHandler::PickUp,
        EffectType::Drop { .. } => EffectHandler::DropItem,
        EffectType::Explore {  } => EffectHandler::Autoexplore,
        EffectType::Heal { .. } => EffectHandler::Heal,
        EffectType::Move { .. } => EffectHandler::Move,
        EffectType::Wait {  } => EffectHandler::SkipTurn,
        EffectType::Delete { .. } => EffectHandler::Delete,
        EffectType::MoveOrAttack { .. } => EffectHandler::MoveOrAttack,
    }
}

/// Chooses the routine that applies `effect`.
pub fn target_applicator(effect: &EffectSpawner) -> (h: EffectHandler)
    ensures
        h == spec_handler(effect.effect_type),
{
    match &effect.effect_type {
        EffectType::Damage { .. } => EffectHandler::InflictDamage,
        EffectType::Confusion { .. } => EffectHandler::InflictConfusion,
        EffectType::Fire { .. } => EffectHandler::InflictFire,
        EffectType::PickUp { .. } => EffectHandler::PickUp,
        EffectType::Drop { .. } => EffectHandler::DropItem,
        EffectType::Explore {  } => EffectHandler::Autoexplore,
        EffectType::Heal { .. } => EffectHandler::Heal,
        EffectType::Move { .. } => EffectHandler::Move,
        EffectType::Wait {  } => EffectHandler::SkipTurn,
        EffectType::Delete { .. } => EffectHandler::Delete,
        EffectType::MoveOrAttack { .. } => EffectHandler::MoveOrAttack,
    }
}

/// The effects waiting to be applied, first in first out.
pub struct EffectQueue {
    pub queue: VecDeque<EffectSpawner>,
}

impl View for EffectQueue {
    type V = Seq<EffectSpawner>;

    open spec fn view(&self) -> Seq<EffectSpawner> {
        self.queue@
    }
}

impl EffectQueue {
    /// An empty queue.
    pub fn new() -> (q: EffectQueue)
        ensures
            q@ == Seq::<EffectSpawner>::empty(),
    {
        EffectQueue { queue: VecDeque::new() }
    }

    /// Puts an effect at the back of the queue.
    pub fn add_effect(&mut self, creator: Option<EntityId>, effect_type: EffectType)
        ensures
            final(self)@ == old(self)@.push(EffectSpawner { creator, effect_type }),
    {
        self.queue.push_back(EffectSpawner { creator, effect_type });
    }

    /// Takes the effect at the front of the queue, if any.
    pub fn pop_effect(&mut self) -> (e: Option<EffectSpawner>)
        ensures
            old(self)@.len() == 0 ==> e is None && final(self)@ == old(self)@,
            old(self)@.len() > 0 ==> e == Some(old(self)@[0]) && final(self)@ == old(
                self,
            )@.drop_first(),
    {
        self.queue.pop_front()
    }

    /// The number of waiting effects.
    pub fn len(&self) -> (n: usize)
        ensures
            n == self@.len(),
    {
        self.queue.len()
    }
}

/// Effects leave the queue in the order they were added: adding an effect
/// to a non-empty queue does not change which effect comes out next, nor
/// what is left behind it but for the new effect at the back; added to an
/// empty queue, it is the next one out.
pub proof fn lemma_queue_fifo(q: Seq<EffectSpawner>, e: EffectSpawner)
    ensures
        q.len() > 0 ==> q.push(e)[0] == q[0] && q.push(e).drop_first() == q.drop_first().push(e),
        q.len() == 0 ==> q.push(e)[0] == e && q.push(e).drop_first() == q,
{
    if q.len() > 0 {
        assert(q.push(e).drop_first() =~= q.drop_first().push(e));
    } else {
        assert(q.push(e).drop_first() =~= q);
    }
}

/// The entities standing on each of `tiles`, tile by tile.
pub open spec fn spec_entities_on_tiles(content: Seq<Vec<EntityId>>, tiles: Seq<usize>) -> Seq<
    EntityId,
>
    decreases tiles.len(),
{
    if tiles.len() == 0 {
        seq![]
    } else {
        spec_entities_on_tiles(content, tiles.drop_last()) + content[tiles.last() as int]@
    }
}

/// The entities an effect target reaches: those on the tile or tiles, or
/// the named entities.
pub open spec fn spec_effected_entities(content: Seq<Vec<EntityId>>, targets: Targets) -> Seq<
    EntityId,
> {
    match targets {
        Targets::Tile { tile_idx } => content[tile_idx as int]@,
        Targets::Tiles { tiles } => spec_entities_on_tiles(content, tiles@),
        Targets::Single { target } => seq![target],
        Targets::Area { target } => target@,
    }
}

/// Every tile an effect names lies on the map.
pub open spec fn targets_on_map(map: &TileMap, targets: &Targets) -> bool {
    match targets {
        Targets::Tile { tile_idx } => *tile_idx < map.tile_content@.len(),
        Targets::Tiles { tiles } => forall|i: int|
            0 <= i < tiles@.len() ==> tiles@[i] < map.tile_content@.len(),
        _ => true,
    }
}

fn append_tile(r: &mut Vec<EntityId>, content: &Vec<EntityId>)
    ensures
        final(r)@ == old(r)@ + content@,
{
    let mut j: usize = 0;
    while j < content.len()
        invariant
            j <= content.len(),
            r@ == old(r)@ + content@.take(j as int),
        decreases content.len() - j,
    {
        r.push(content[j]);
        assert(content@.take(j + 1) =~= content@.take(j as int).push(content@[j as int]));
        j = j + 1;
    }
    assert(content@.take(content.len() as int) =~= content@);
}

/// The entities that an effect on `targets` reaches.
pub fn get_effected_entities(map: &TileMap, targets: &Targets) -> (r: Vec<EntityId>)
    requires
        targets_on_map(map, targets),
    ensures
        r@ == spec_effected_entities(map.tile_content@, *targets),
{
    let mut entities: Vec<EntityId> = Vec::new();
    match targets {
        Targets::Tile { tile_idx } => {
            append_tile(&mut entities, &map.tile_content[*tile_idx]);
            assert(entities@ =~= map.tile_content@[*tile_idx as int]@);
        },
        Targets::Tiles { tiles } => {
            let mut i: usize = 0;
            while i < tiles.len()
                invariant
                    i <= tiles.len(),
                    forall|k: int| 0 <= k < tiles@.len() ==> tiles@[k] < map.tile_content@.len(),
                    entities@ == spec_entities_on_tiles(map.tile_content@, tiles@.take(i as int)),
                decreases tiles.len() - i,
            {
                append_tile(&mut entities, &map.tile_content[tiles[i]]);
                assert(tiles@.take(i + 1).drop_last() =~= tiles@.take(i as int));
                i = i + 1;
            }
            assert(tiles@.take(tiles.len() as int) =~= tiles@);
        },
        Targets::Single { target } => {
            entities.push(*target);
            assert(entities@ =~= seq![*target]);
        },
        Targets::Area { target } => {
            entities = target.clone();
        },
    }
    entities
}

/// The map indices of the cells of every known position, in order.
pub open spec fn spec_position_cells(map: &TileMap, positions: Seq<Option<Position>>) -> Seq<usize>
    decreases positions.len(),
{
    if positions.len() == 0 {
        seq![]
    } else {
        let rest = spec_position_cells(map, positions.drop_last());
        match positions.last() {
            Some(p) => rest + Seq::new(p.ps@.len(), |i: int| map.spec_point_idx(p.ps@[i]) as usize),
            None => rest,
        }
    }
}

/// The entities an effect names (none for tile targets).
pub open spec fn spec_target_entities(targets: Targets) -> Seq<EntityId> {
    match targets {
        Targets::Single { target } => seq![target],
        Targets::Area { target } => target@,
        _ => seq![],
    }
}

/// The cells an effect on `targets` reaches: the named tiles, or the cells
/// of the named entities that have a position (`positions` holds the
/// position of each named entity, in order).
pub open spec fn spec_effected_tiles(
    map: &TileMap,
    targets: Targets,
    positions: Seq<Option<Position>>,
) -> Seq<usize> {
    match targets {
        Targets::Tile { tile_idx } => seq![tile_idx],
        Targets::Tiles { tiles } => tiles@,
        _ => spec_position_cells(map, positions),
    }
}

/// Every cell of every known position lies on the map.
pub open spec fn positions_on_map(map: &TileMap, positions: Seq<Option<Position>>) -> bool {
    forall|i: int, j: int|
        0 <= i < positions.len() && positions[i] is Some && 0 <= j < positions[i]->0.ps@.len()
            ==> map.point_in_bounds(#[trigger] positions[i]->0.ps@[j])
}

/// The cells that an effect on `targets` reaches.
pub fn get_effected_tiles(map: &TileMap, targets: &Targets, positions: &Vec<Option<Position>>) -> (r:
    Vec<usize>)
    requires
        map.wf(),
        positions@.len() == spec_target_entities(*targets).len(),
        positions_on_map(map, positions@),
    ensures
        r@ == spec_effected_tiles(map, *targets, positions@),
{
    match targets {
        Targets::Tile { tile_idx } => {
            let r = vec![*tile_idx];
            assert(r@ =~= seq![*tile_idx]);
            r
        },
        Targets::Tiles { tiles } => tiles.clone(),
        _ => {
            let mut r: Vec<usize> = Vec::new();
            let mut i: usize = 0;
            while i < positions.len()
                invariant
                    map.wf(),
                    i <= positions@.len(),
                    positions_on_map(map, positions@),
                    r@ == spec_position_cells(map, positions@.take(i as int)),
                decreases positions.len() - i,
            {
                assert(positions@.take(i + 1).drop_last() =~= positions@.take(i as int));
                if let Some(p) = &positions[i] {
                    let ghost before = r@;
                    let mut j: usize = 0;
                    while j < p.ps.len()
                        invariant
                            map.wf(),
                            j <= p.ps@.len(),
                            positions_on_map(map, positions@),
                            i < positions@.len(),
                            positions@[i as int] == Some(*p),
                            r@ == before + Seq::new(j as nat, |k: int| map.spec_point_idx(p.ps@[k]) as usize),
                        decreases p.ps.len() - j,
                    {
                        assert(positions@[i as int]->0.ps@[j as int] == p.ps@[j as int]);
                        assert(map.point_in_bounds(p.ps@[j as int]));
                        r.push(map.point_idx(p.ps[j]));
                        assert(r@ =~= before + Seq::new((j + 1) as nat, |k: int| map.spec_point_idx(p.ps@[k]) as usize));
                        j = j + 1;
                    }
                }
                i = i + 1;
            }
            assert(positions@.take(positions.len() as int) =~= positions@);
            r
        },
    }
}

} // verus!
