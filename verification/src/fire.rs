use vstd::prelude::*;
use rltk::RandomNumberGenerator;
use crate::effects::{EffectType, Targets};
use crate::geometry::Point;
use crate::map::{spec_flammable, spec_in_bounds, EntityId, TileMap, TileType};
use crate::spawning::{new_rng, rng_range};

verus! {

/// The turns a freshly lit fire burns.
pub const NEW_FIRE_TURNS: i32 = 10;

/// An entity that is on fire: its remaining fire turns, whether it takes
/// damage from the fire (it has combat stats and a position), and the
/// cells it stands on.
pub struct OnFire {
    pub id: EntityId,
    pub turns: i32,
    pub fighter: bool,
    pub cells: Vec<Point>,
}

/// The damage the fire deals this turn: one point to every burning
/// fighter, in order.
pub open spec fn spec_fire_damage(fires: Seq<OnFire>) -> Seq<EffectType>
    decreases fires.len(),
{
    if fires.len() == 0 {
        Seq::empty()
    } else if fires.last().fighter {
        spec_fire_damage(fires.drop_last()).push(
            EffectType::Damage { amount: 1, target: Targets::Single { target: fires.last().id } },
        )
    } else {
        spec_fire_damage(fires.drop_last())
    }
}

/// The fire turns of the cells after lighting every cell of `cells` that
/// burns and is not burning yet.
pub open spec fn spec_ignite_cells(width: int, ft: Seq<i32>, tiles: Seq<TileType>, cells: Seq<Point>) -> Seq<i32>
    decreases cells.len(),
{
    if cells.len() == 0 {
        ft
    } else {
        let f = spec_ignite_cells(width, ft, tiles, cells.drop_last());
        let i = cells.last().y * width + cells.last().x;
        if 0 <= i < f.len() && spec_flammable(tiles[i]) && f[i] == 0 {
            f.update(i, NEW_FIRE_TURNS)
        } else {
            f
        }
    }
}

/// The fire turns of the cells after every burning fighter lights the
/// cells it stands on.
pub open spec fn spec_ignite(width: int, ft: Seq<i32>, tiles: Seq<TileType>, fires: Seq<OnFire>) -> Seq<i32>
    decreases fires.len(),
{
    if fires.len() == 0 {
        ft
    } else {
        let f = spec_ignite(width, ft, tiles, fires.drop_last());
        if fires.last().fighter {
            spec_ignite_cells(width, f, tiles, fires.last().cells@)
        } else {
            f
        }
    }
}

/// Every burning fighter stands on the map.
pub open spec fn fires_on_map(map: &TileMap, fires: Seq<OnFire>) -> bool {
    forall|k: int, c: int|
        0 <= k < fires.len() && 0 <= c < fires[k].cells@.len() ==> #[trigger] map.point_in_bounds(
            fires[k].cells@[c],
        )
}

/// The fire turns of the cells after the spread from burning cell `idx`
/// towards its first `j` neighbours (the cell itself among them), taken
/// column by column: a neighbour catches fire when it is on the map,
/// burns, is not burning and its spark `sparks[9 * idx + j]` is set.
pub open spec fn spec_spread(
    w: int,
    h: int,
    ft: Seq<i32>,
    tiles: Seq<TileType>,
    idx: int,
    j: int,
    sparks: Seq<bool>,
) -> Seq<i32>
    decreases j,
{
    if j <= 0 {
        ft
    } else {
        let f = spec_spread(w, h, ft, tiles, idx, j - 1, sparks);
        let nx = idx % w + (j - 1) / 3 - 1;
        let ny = idx / w + (j - 1) % 3 - 1;
        let n = ny * w + nx;
        if spec_in_bounds(w, h, nx, ny) && 0 <= n < f.len() && f[n] == 0 && spec_flammable(tiles[n])
            && sparks[9 * idx + j - 1] {
            f.update(n, NEW_FIRE_TURNS)
        } else {
            f
        }
    }
}

/// The fire catching the entities on cell `idx`.
pub open spec fn spec_lit(content: Seq<EntityId>) -> Seq<EffectType> {
    content.map_values(
        |e: EntityId| EffectType::Fire { turns: NEW_FIRE_TURNS, target: Targets::Single { target: e } },
    )
}

/// The cells' fire turns, tiles and the effects produced after the first
/// `k` cells have burned, in index order: a burning cell loses a turn,
/// turns to dirt when its fire goes out on a tile that burns, sets fire
/// to the entities on it and may spread to its neighbours.
pub open spec fn spec_burn(
    w: int,
    h: int,
    content: Seq<Vec<EntityId>>,
    sparks: Seq<bool>,
    ft: Seq<i32>,
    tiles: Seq<TileType>,
    k: int,
) -> (Seq<i32>, Seq<TileType>, Seq<EffectType>)
    decreases k,
{
    if k <= 0 {
        (ft, tiles, Seq::empty())
    } else {
        let (f, t, e) = spec_burn(w, h, content, sparks, ft, tiles, k - 1);
        let i = k - 1;
        if f[i] > 0 {
            let f1 = f.update(i, (f[i] - 1) as i32);
            let t1 = if f1[i] == 0 && spec_flammable(t[i]) {
                t.update(i, TileType::Dirt)
            } else {
                t
            };
            (spec_spread(w, h, f1, t1, i, 9, sparks), t1, e + spec_lit(content[i]@))
        } else {
            (f, t, e)
        }
    }
}

/// What the fire does to burning entities this turn: the effects to apply,
/// each entity's fire turns afterwards, and the entities whose fire went
/// out.
pub struct FireTurn {
    pub effects: Vec<EffectType>,
    pub turns: Vec<i32>,
    pub extinguished: Vec<EntityId>,
}

/// Every burning entity's fire turns can go down by one.
pub open spec fn fire_turns_fit(fires: Seq<OnFire>) -> bool {
    forall|k: int| 0 <= k < fires.len() ==> #[trigger] fires[k].turns > i32::MIN
}

/// The entities whose fire goes out, in order.
pub open spec fn spec_extinguished(fires: Seq<OnFire>) -> Seq<EntityId>
    decreases fires.len(),
{
    if fires.len() == 0 {
        Seq::empty()
    } else if fires.last().turns - 1 <= 0 {
        spec_extinguished(fires.drop_last()).push(fires.last().id)
    } else {
        spec_extinguished(fires.drop_last())
    }
}

/// Burning fighters take a point of damage and light the cells they stand
/// on; returns the damage effects.
fn damage_and_ignite(map: &mut TileMap, fires: &Vec<OnFire>) -> (r: Vec<EffectType>)
    requires
        old(map).wf(),
        fires_on_map(old(map), fires@),
    ensures
        final(map).wf(),
        r@ == spec_fire_damage(fires@),
        final(map).fire_turns@ == spec_ignite(
            old(map).width as int,
            old(map).fire_turns@,
            old(map).tiles@,
            fires@,
        ),
        final(map).width == old(map).width,
        final(map).height == old(map).height,
        final(map).depth == old(map).depth,
        final(map).tiles@ == old(map).tiles@,
        final(map).blocked@ == old(map).blocked@,
        final(map).tile_content@ == old(map).tile_content@,
{
    let ghost m0 = *map;
    let mut effects: Vec<EffectType> = Vec::new();
    let mut k: usize = 0;
    while k < fires.len()
        invariant
            k <= fires@.len(),
            map.wf(),
            fires_on_map(&m0, fires@),
            map.width == m0.width,
            map.height == m0.height,
            map.depth == m0.depth,
            map.tiles@ == m0.tiles@,
            map.blocked@ == m0.blocked@,
            map.tile_content@ == m0.tile_content@,
            effects@ == spec_fire_damage(fires@.take(k as int)),
            map.fire_turns@ == spec_ignite(
                m0.width as int,
                m0.fire_turns@,
                m0.tiles@,
                fires@.take(k as int),
            ),
        decreases fires.len() - k,
    {
        assert(fires@.take(k + 1).drop_last() =~= fires@.take(k as int));
        assert(fires@.take(k + 1).last() == fires@[k as int]);
        let f = &fires[k];
        if f.fighter {
            effects.push(EffectType::Damage { amount: 1, target: Targets::Single { target: f.id } });
            let ghost before = map.fire_turns@;
            let mut c: usize = 0;
            while c < f.cells.len()
                invariant
                    c <= f.cells@.len(),
                    f == &fires@[k as int],
                    k < fires@.len(),
                    map.wf(),
                    fires_on_map(&m0, fires@),
                    map.width == m0.width,
                    map.height == m0.height,
                    map.depth == m0.depth,
                    map.tiles@ == m0.tiles@,
                    map.blocked@ == m0.blocked@,
                    map.tile_content@ == m0.tile_content@,
                    map.fire_turns@ == spec_ignite_cells(
                        m0.width as int,
                        before,
                        m0.tiles@,
                        f.cells@.take(c as int),
                    ),
                decreases f.cells.len() - c,
            {
                assert(f.cells@.take(c + 1).drop_last() =~= f.cells@.take(c as int));
                assert(f.cells@.take(c + 1).last() == f.cells@[c as int]);
                let p = f.cells[c];
                assert(m0.point_in_bounds(fires@[k as int].cells@[c as int]));
                let idx = map.point_idx(p);
                if map.is_flammable(idx) && map.fire_turns[idx] == 0 {
                    map.fire_turns.set(idx, NEW_FIRE_TURNS);
                }
                c = c + 1;
            }
            assert(f.cells@.take(f.cells.len() as int) =~= f.cells@);
        }
        k = k + 1;
    }
    assert(fires@.take(fires.len() as int) =~= fires@);
    effects
}

/// Burns the map's cells for one turn, in index order, spreading by
/// `sparks`; returns the fire effects on the entities of burning cells.
fn burn_tiles(map: &mut TileMap, sparks: &Vec<bool>) -> (r: Vec<EffectType>)
    requires
        old(map).wf(),
        sparks@.len() == 9 * old(map).size(),
    ensures
        final(map).wf(),
        (final(map).fire_turns@, final(map).tiles@, r@) == spec_burn(
            old(map).width as int,
            old(map).height as int,
            old(map).tile_content@,
            sparks@,
            old(map).fire_turns@,
            old(map).tiles@,
            old(map).size(),
        ),
        final(map).width == old(map).width,
        final(map).height == old(map).height,
        final(map).depth == old(map).depth,
        final(map).blocked@ == old(map).blocked@,
        final(map).tile_content@ == old(map).tile_content@,
{
    let ghost m0 = *map;
    let ghost w = m0.width as int;
    let ghost h = m0.height as int;
    let n: usize = (map.width * map.height) as usize;
    let spark_count: usize = sparks.len();
    let mut effects: Vec<EffectType> = Vec::new();
    let mut idx: usize = 0;
    while idx < n
        invariant
            n == m0.size(),
            idx <= n,
            w == m0.width,
            h == m0.height,
            sparks@.len() == 9 * m0.size(),
            spark_count == sparks@.len(),
            map.wf(),
            map.width == m0.width,
            map.height == m0.height,
            map.depth == m0.depth,
            map.blocked@ == m0.blocked@,
            map.tile_content@ == m0.tile_content@,
            (map.fire_turns@, map.tiles@, effects@) == spec_burn(
                w,
                h,
                m0.tile_content@,
                sparks@,
                m0.fire_turns@,
                m0.tiles@,
                idx as int,
            ),
        decreases n - idx,
    {
        if map.fire_turns[idx] > 0 {
            let v = map.fire_turns[idx] - 1;
            map.fire_turns.set(idx, v);
            if v == 0 && map.is_flammable(idx) {
                map.tiles.set(idx, TileType::Dirt);
            }
            let ghost e0 = effects@;
            let ghost t_now = map.tiles@;
            let ghost f_now = map.fire_turns@;
            let mut e: usize = 0;
            while e < map.tile_content[idx].len()
                invariant
                    idx < n,
                    n == m0.size(),
                    map.wf(),
                    map.width == m0.width,
                    map.height == m0.height,
                    map.tile_content@ == m0.tile_content@,
                    map.depth == m0.depth,
                    map.blocked@ == m0.blocked@,
                    map.tiles@ == t_now,
                    map.fire_turns@ == f_now,
                    e <= map.tile_content@[idx as int]@.len(),
                    effects@ == e0 + spec_lit(map.tile_content@[idx as int]@.take(e as int)),
                decreases map.tile_content@[idx as int]@.len() - e,
            {
                effects.push(
                    EffectType::Fire {
                        turns: NEW_FIRE_TURNS,
                        target: Targets::Single { target: map.tile_content[idx][e] },
                    },
                );
                e = e + 1;
                assert(e0 + spec_lit(map.tile_content@[idx as int]@.take(e as int)) =~= effects@);
            }
            assert(map.tile_content@[idx as int]@.take(e as int) =~= map.tile_content@[idx as int]@);
            let (x, y) = map.idx_xy(idx);
            let ghost f1 = map.fire_turns@;
            let mut j: usize = 0;
            while j < 9
                invariant
                    idx < n,
                    n == m0.size(),
                    j <= 9,
                    w == m0.width,
                    h == m0.height,
                    x == idx as int % w,
                    y == idx as int / w,
                    0 <= x < w,
                    0 <= y < h,
                    sparks@.len() == 9 * m0.size(),
                    spark_count == sparks@.len(),
                    map.wf(),
                    map.width == m0.width,
                    map.height == m0.height,
                    map.depth == m0.depth,
                    map.blocked@ == m0.blocked@,
                    map.tile_content@ == m0.tile_content@,
                    map.tiles@ == t_now,
                    map.fire_turns@ == spec_spread(w, h, f1, map.tiles@, idx as int, j as int, sparks@),
                decreases 9 - j,
            {
                let dx: i32 = (j / 3) as i32 - 1;
                let dy: i32 = (j % 3) as i32 - 1;
                let nx = x + dx;
                let ny = y + dy;
                if map.in_bounds(nx, ny) {
                    let nidx = map.xy_idx(nx, ny);
                    assert(9 * idx + j < 9 * m0.size()) by (nonlinear_arith)
                        requires
                            idx < m0.size(),
                            j < 9,
                    ;
                    if map.fire_turns[nidx] == 0 && map.is_flammable(nidx) && sparks[9 * idx + j] {
                        map.fire_turns.set(nidx, NEW_FIRE_TURNS);
                    }
                }
                j = j + 1;
            }
            proof {
                let (f, t, e) = spec_burn(w, h, m0.tile_content@, sparks@, m0.fire_turns@, m0.tiles@, idx as int);
                assert(f1 == f.update(idx as int, (f[idx as int] - 1) as i32));
                assert(effects@ == e + spec_lit(m0.tile_content@[idx as int]@));
                let t1 = if f1[idx as int] == 0 && spec_flammable(t[idx as int]) {
                    t.update(idx as int, TileType::Dirt)
                } else {
                    t
                };
                assert(map.tiles@ == t1);
                assert(map.fire_turns@ == spec_spread(w, h, f1, t1, idx as int, 9, sparks@));
                assert(f[idx as int] > 0);
                assert(spec_burn(w, h, m0.tile_content@, sparks@, m0.fire_turns@, m0.tiles@, idx + 1)
                    == (spec_spread(w, h, f1, t1, idx as int, 9, sparks@), t1, e + spec_lit(m0.tile_content@[idx as int]@)));
            }
        }
        idx = idx + 1;
    }
    effects
}

/// Counts every burning entity's fire down by a turn; returns the turns
/// left and the entities whose fire went out.
fn countdown(fires: &Vec<OnFire>) -> (r: (Vec<i32>, Vec<EntityId>))
    requires
        fire_turns_fit(fires@),
    ensures
        r.0@.len() == fires@.len(),
        forall|k: int| 0 <= k < fires@.len() ==> r.0@[k] == fires@[k].turns - 1,
        r.1@ == spec_extinguished(fires@),
{
    let mut turns: Vec<i32> = Vec::new();
    let mut out: Vec<EntityId> = Vec::new();
    let mut k: usize = 0;
    while k < fires.len()
        invariant
            k <= fires@.len(),
            fire_turns_fit(fires@),
            turns@.len() == k,
            forall|i: int| 0 <= i < k ==> turns@[i] == fires@[i].turns - 1,
            out@ == spec_extinguished(fires@.take(k as int)),
        decreases fires.len() - k,
    {
        assert(fires@.take(k + 1).drop_last() =~= fires@.take(k as int));
        assert(fires@.take(k + 1).last() == fires@[k as int]);
        assert(fires@[k as int].turns > i32::MIN);
        let t = fires[k].turns - 1;
        turns.push(t);
        if t <= 0 {
            out.push(fires[k].id);
        }
        k = k + 1;
    }
    assert(fires@.take(fires.len() as int) =~= fires@);
    (turns, out)
}

/// The sparks of a turn of fire from its rolls of a ten-sided die counted
/// from 0: a spark flies exactly where the roll is 0, one chance in ten.
pub fn fire_sparks(rolls: &Vec<i32>) -> (sparks: Vec<bool>)
    ensures
        sparks@.len() == rolls@.len(),
        forall|i: int| 0 <= i < rolls@.len() ==> #[trigger] sparks@[i] == (rolls@[i] == 0),
{
    let mut sparks: Vec<bool> = Vec::new();
    let mut i: usize = 0;
    while i < rolls.len()
        invariant
            i <= rolls@.len(),
            sparks@.len() == i,
            forall|k: int| 0 <= k < i ==> #[trigger] sparks@[k] == (rolls@[k] == 0),
        decreases rolls.len() - i,
    {
        sparks.push(rolls[i] == 0);
        i = i + 1;
    }
    sparks
}

/// One turn of fire, which burns only on the player's turn.
///
/// Burning fighters take a point of damage and light the cells they stand
/// on; every burning entity's fire counts down, and goes out at zero;
/// then every burning cell, in index order, counts down, turns to dirt
/// when its fire goes out on a tile that burns, sets fire to the entities
/// on it and may spread to each neighbour that burns and is not burning,
/// with one chance in ten. The result holds for some outcome of those
/// chances (`sparks`, one per cell and neighbour).
pub fn run_fire_system(map: &mut TileMap, fires: &Vec<OnFire>, player_turn: bool) -> (r: FireTurn)
    requires
        old(map).wf(),
        fires_on_map(old(map), fires@),
        fire_turns_fit(fires@),
        9 * old(map).size() <= usize::MAX,
    ensures
        final(map).wf(),
        final(map).width == old(map).width,
        final(map).height == old(map).height,
        final(map).depth == old(map).depth,
        final(map).blocked@ == old(map).blocked@,
        final(map).tile_content@ == old(map).tile_content@,
        !player_turn ==> {
            &&& final(map).fire_turns@ == old(map).fire_turns@
            &&& final(map).tiles@ == old(map).tiles@
            &&& r.effects@.len() == 0
            &&& r.extinguished@.len() == 0
            &&& r.turns@ == fires@.map_values(|f: OnFire| f.turns)
        },
        player_turn ==> {
            &&& r.turns@.len() == fires@.len()
            &&& forall|k: int| 0 <= k < fires@.len() ==> r.turns@[k] == fires@[k].turns - 1
            &&& r.extinguished@ == spec_extinguished(fires@)
            &&& exists|sparks: Seq<bool>|
                #![trigger spec_burn(
                    old(map).width as int,
                    old(map).height as int,
                    old(map).tile_content@,
                    sparks,
                    spec_ignite(old(map).width as int, old(map).fire_turns@, old(map).tiles@, fires@),
                    old(map).tiles@,
                    old(map).size(),
                )]
                sparks.len() == 9 * old(map).size() && {
                    let (ft, tiles, lit) = spec_burn(
                        old(map).width as int,
                        old(map).height as int,
                        old(map).tile_content@,
                        sparks,
                        spec_ignite(old(map).width as int, old(map).fire_turns@, old(map).tiles@, fires@),
                        old(map).tiles@,
                        old(map).size(),
                    );
                    &&& final(map).fire_turns@ == ft
                    &&& final(map).tiles@ == tiles
                    &&& r.effects@ == spec_fire_damage(fires@) + lit
                }
        },
{
    if !player_turn {
        let mut turns: Vec<i32> = Vec::new();
        let mut k: usize = 0;
        while k < fires.len()
            invariant
                k <= fires@.len(),
                turns@ == fires@.take(k as int).map_values(|f: OnFire| f.turns),
            decreases fires.len() - k,
        {
            turns.push(fires[k].turns);
            k = k + 1;
            assert(turns@ =~= fires@.take(k as int).map_values(|f: OnFire| f.turns));
        }
        assert(fires@.take(fires.len() as int) =~= fires@);
        return FireTurn { effects: Vec::new(), turns, extinguished: Vec::new() };
    }
    let ghost m0 = *map;
    let mut effects = damage_and_ignite(map, fires);
    let (turns, extinguished) = countdown(fires);
    let mut rng = new_rng();
    let count: usize = 9 * ((map.width * map.height) as usize);
    let mut rolls: Vec<i32> = Vec::new();
    let mut i: usize = 0;
    while i < count
        invariant
            i <= count,
            rolls@.len() == i,
            forall|k: int| 0 <= k < i ==> 0 <= #[trigger] rolls@[k] < 10,
        decreases count - i,
    {
        let roll = rng_range(&mut rng, 0, 10);
        rolls.push(roll);
        i = i + 1;
    }
    let sparks = fire_sparks(&rolls);
    let mut lit = burn_tiles(map, &sparks);
    let ghost burnt = spec_burn(
        m0.width as int,
        m0.height as int,
        m0.tile_content@,
        sparks@,
        spec_ignite(m0.width as int, m0.fire_turns@, m0.tiles@, fires@),
        m0.tiles@,
        m0.size(),
    );
    effects.append(&mut lit);
    assert(effects@ == spec_fire_damage(fires@) + burnt.2);
    FireTurn { effects, turns, extinguished }
}

/// Applies a fire effect to the cell at `tile_idx`: a cell that burns
/// burns `turns` turns longer; other effects, and cells that do not burn,
/// are left alone.
pub fn inflict_fire_tile(map: &mut TileMap, effect: &EffectType, tile_idx: usize)
    requires
        old(map).wf(),
        tile_idx < old(map).size(),
        match *effect {
            EffectType::Fire { turns, .. } => spec_flammable(old(map).tiles@[tile_idx as int])
                ==> i32::MIN <= old(map).fire_turns@[tile_idx as int] + turns <= i32::MAX,
            _ => true,
        },
    ensures
        final(map).wf(),
        final(map).width == old(map).width,
        final(map).height == old(map).height,
        final(map).depth == old(map).depth,
        final(map).tiles@ == old(map).tiles@,
        final(map).blocked@ == old(map).blocked@,
        final(map).tile_content@ == old(map).tile_content@,
        final(map).fire_turns@ == match *effect {
            EffectType::Fire { turns, .. } => if spec_flammable(old(map).tiles@[tile_idx as int]) {
                old(map).fire_turns@.update(
                    tile_idx as int,
                    (old(map).fire_turns@[tile_idx as int] + turns) as i32,
                )
            } else {
                old(map).fire_turns@
            },
            _ => old(map).fire_turns@,
        },
{
    if let EffectType::Fire { turns, .. } = effect {
        if map.is_flammable(tile_idx) {
            let v = map.fire_turns[tile_idx] + *turns;
            map.fire_turns.set(tile_idx, v);
        }
    }
}

proof fn lemma_ignite_cells_spares(width: int, ft: Seq<i32>, tiles: Seq<TileType>, cells: Seq<Point>, i: int)
    requires
        0 <= i < ft.len(),
        !spec_flammable(tiles[i]),
    ensures
        spec_ignite_cells(width, ft, tiles, cells)[i] == ft[i],
    decreases cells.len(),
{
    if cells.len() > 0 {
        lemma_ignite_cells_spares(width, ft, tiles, cells.drop_last(), i);
        lemma_ignite_cells_len(width, ft, tiles, cells.drop_last());
    }
}

proof fn lemma_ignite_spares(width: int, ft: Seq<i32>, tiles: Seq<TileType>, fires: Seq<OnFire>, i: int)
    requires
        0 <= i < ft.len(),
        !spec_flammable(tiles[i]),
    ensures
        spec_ignite(width, ft, tiles, fires)[i] == ft[i],
    decreases fires.len(),
{
    if fires.len() > 0 {
        lemma_ignite_spares(width, ft, tiles, fires.drop_last(), i);
        lemma_ignite_len(width, ft, tiles, fires.drop_last());
        if fires.last().fighter {
            lemma_ignite_cells_spares(
                width,
                spec_ignite(width, ft, tiles, fires.drop_last()),
                tiles,
                fires.last().cells@,
                i,
            );
        }
    }
}

proof fn lemma_spread_spares(
    w: int,
    h: int,
    ft: Seq<i32>,
    tiles: Seq<TileType>,
    idx: int,
    j: int,
    sparks: Seq<bool>,
    i: int,
)
    requires
        0 <= i < ft.len(),
        !spec_flammable(tiles[i]),
    ensures
        spec_spread(w, h, ft, tiles, idx, j, sparks)[i] == ft[i],
    decreases j,
{
    if j > 0 {
        lemma_spread_spares(w, h, ft, tiles, idx, j - 1, sparks, i);
        lemma_spread_len(w, h, ft, tiles, idx, j - 1, sparks);
    }
}

proof fn lemma_spread_len(w: int, h: int, ft: Seq<i32>, tiles: Seq<TileType>, idx: int, j: int, sparks: Seq<bool>)
    ensures
        spec_spread(w, h, ft, tiles, idx, j, sparks).len() == ft.len(),
    decreases j,
{
    if j > 0 {
        lemma_spread_len(w, h, ft, tiles, idx, j - 1, sparks);
    }
}

proof fn lemma_burn_len(
    w: int,
    h: int,
    content: Seq<Vec<EntityId>>,
    sparks: Seq<bool>,
    ft: Seq<i32>,
    tiles: Seq<TileType>,
    k: int,
)
    requires
        k <= ft.len(),
        tiles.len() == ft.len(),
    ensures
        spec_burn(w, h, content, sparks, ft, tiles, k).0.len() == ft.len(),
        spec_burn(w, h, content, sparks, ft, tiles, k).1.len() == ft.len(),
    decreases k,
{
    if k > 0 {
        lemma_burn_len(w, h, content, sparks, ft, tiles, k - 1);
        let (f, t, e) = spec_burn(w, h, content, sparks, ft, tiles, k - 1);
        let c = k - 1;
        if f[c] > 0 {
            let f1 = f.update(c, (f[c] - 1) as i32);
            let t1 = if f1[c] == 0 && spec_flammable(t[c]) {
                t.update(c, TileType::Dirt)
            } else {
                t
            };
            lemma_spread_len(w, h, f1, t1, c, 9, sparks);
        }
    }
}

proof fn lemma_burn_spares(
    w: int,
    h: int,
    content: Seq<Vec<EntityId>>,
    sparks: Seq<bool>,
    ft: Seq<i32>,
    tiles: Seq<TileType>,
    k: int,
    i: int,
)
    requires
        0 <= i < ft.len(),
        k <= ft.len(),
        tiles.len() == ft.len(),
        ft[i] == 0,
        !spec_flammable(tiles[i]),
    ensures
        spec_burn(w, h, content, sparks, ft, tiles, k).0[i] == 0,
        spec_burn(w, h, content, sparks, ft, tiles, k).1[i] == tiles[i],
    decreases k,
{
    if k > 0 {
        lemma_burn_spares(w, h, content, sparks, ft, tiles, k - 1, i);
        lemma_burn_len(w, h, content, sparks, ft, tiles, k - 1);
        let (f, t, e) = spec_burn(w, h, content, sparks, ft, tiles, k - 1);
        let c = k - 1;
        if f[c] > 0 {
            let f1 = f.update(c, (f[c] - 1) as i32);
            let t1 = if f1[c] == 0 && spec_flammable(t[c]) {
                t.update(c, TileType::Dirt)
            } else {
                t
            };
            lemma_spread_spares(w, h, f1, t1, c, 9, sparks, i);
        }
    }
}

proof fn lemma_spread_values(
    w: int,
    h: int,
    ft: Seq<i32>,
    tiles: Seq<TileType>,
    idx: int,
    j: int,
    sparks: Seq<bool>,
    m: int,
)
    requires
        0 <= m < ft.len(),
    ensures
        spec_spread(w, h, ft, tiles, idx, j, sparks)[m] == ft[m] || spec_spread(w, h, ft, tiles, idx, j, sparks)[m]
            == NEW_FIRE_TURNS,
    decreases j,
{
    if j > 0 {
        lemma_spread_values(w, h, ft, tiles, idx, j - 1, sparks, m);
        lemma_spread_len(w, h, ft, tiles, idx, j - 1, sparks);
    }
}

proof fn lemma_spread_keeps_lit(
    w: int,
    h: int,
    ft: Seq<i32>,
    tiles: Seq<TileType>,
    idx: int,
    j0: int,
    j: int,
    sparks: Seq<bool>,
    n: int,
)
    requires
        0 <= j0 <= j,
        0 <= n < ft.len(),
        spec_spread(w, h, ft, tiles, idx, j0, sparks)[n] == NEW_FIRE_TURNS,
    ensures
        spec_spread(w, h, ft, tiles, idx, j, sparks)[n] == NEW_FIRE_TURNS,
    decreases j - j0,
{
    if j > j0 {
        lemma_spread_keeps_lit(w, h, ft, tiles, idx, j0, j - 1, sparks, n);
        lemma_spread_len(w, h, ft, tiles, idx, j - 1, sparks);
    }
}

/// A spark that flies from a burning cell lights its neighbour: when the
/// cell at `(x, y)` spreads its fire, a neighbour `(x + dx, y + dy)` on the
/// map whose tile burns and that is not burning catches fire for
/// `NEW_FIRE_TURNS` turns whenever the spark of that cell and direction is
/// set (and sparks fly on a roll of 0, see `fire_sparks`).
pub proof fn lemma_spark_lights_neighbour(
    w: int,
    h: int,
    ft: Seq<i32>,
    tiles: Seq<TileType>,
    x: int,
    y: int,
    dx: int,
    dy: int,
    sparks: Seq<bool>,
)
    requires
        w > 0,
        h > 0,
        ft.len() == w * h,
        tiles.len() == w * h,
        spec_in_bounds(w, h, x, y),
        -1 <= dx <= 1,
        -1 <= dy <= 1,
        spec_in_bounds(w, h, x + dx, y + dy),
        ft[(y + dy) * w + (x + dx)] == 0,
        spec_flammable(tiles[(y + dy) * w + (x + dx)]),
        sparks[9 * (y * w + x) + 3 * (dx + 1) + (dy + 1)],
    ensures
        spec_spread(w, h, ft, tiles, y * w + x, 9, sparks)[(y + dy) * w + (x + dx)] == NEW_FIRE_TURNS,
{
    let idx = y * w + x;
    let n = (y + dy) * w + (x + dx);
    let j = 3 * (dx + 1) + (dy + 1) + 1;
    vstd::arithmetic::div_mod::lemma_fundamental_div_mod_converse_div(idx, w, y, x);
    vstd::arithmetic::div_mod::lemma_fundamental_div_mod_converse_mod(idx, w, y, x);
    assert(idx % w == x && idx / w == y);
    assert((j - 1) / 3 == dx + 1 && (j - 1) % 3 == dy + 1);
    crate::map::lemma_xy_idx_in_range(w, h, x + dx, y + dy);
    assert(0 <= n < ft.len());
    lemma_spread_len(w, h, ft, tiles, idx, j - 1, sparks);
    lemma_spread_values(w, h, ft, tiles, idx, j - 1, sparks, n);
    let f = spec_spread(w, h, ft, tiles, idx, j - 1, sparks);
    if f[n] == 0 {
        assert(spec_spread(w, h, ft, tiles, idx, j, sparks) == f.update(n, NEW_FIRE_TURNS));
    } else {
        assert(f[n] == NEW_FIRE_TURNS);
        assert(spec_spread(w, h, ft, tiles, idx, j, sparks)[n] == NEW_FIRE_TURNS);
    }
    lemma_spread_keeps_lit(w, h, ft, tiles, idx, j, 9, sparks, n);
}

/// Fire never takes hold of a cell whose tile does not burn: such a cell
/// that is not burning before a turn of fire is not burning after it, and
/// keeps its tile, whatever the chances of the spread.
pub proof fn lemma_fire_spares_nonflammable(
    map: TileMap,
    fires: Seq<OnFire>,
    sparks: Seq<bool>,
    i: int,
)
    requires
        map.wf(),
        0 <= i < map.size(),
        map.fire_turns@[i] == 0,
        !spec_flammable(map.tiles@[i]),
    ensures
        spec_burn(
            map.width as int,
            map.height as int,
            map.tile_content@,
            sparks,
            spec_ignite(map.width as int, map.fire_turns@, map.tiles@, fires),
            map.tiles@,
            map.size(),
        ).0[i] == 0,
        spec_burn(
            map.width as int,
            map.height as int,
            map.tile_content@,
            sparks,
            spec_ignite(map.width as int, map.fire_turns@, map.tiles@, fires),
            map.tiles@,
            map.size(),
        ).1[i] == map.tiles@[i],
{
    let lit = spec_ignite(map.width as int, map.fire_turns@, map.tiles@, fires);
    lemma_ignite_spares(map.width as int, map.fire_turns@, map.tiles@, fires, i);
    lemma_ignite_len(map.width as int, map.fire_turns@, map.tiles@, fires);
    lemma_burn_spares(
        map.width as int,
        map.height as int,
        map.tile_content@,
        sparks,
        lit,
        map.tiles@,
        map.size(),
        i,
    );
}

proof fn lemma_ignite_cells_len(width: int, ft: Seq<i32>, tiles: Seq<TileType>, cells: Seq<Point>)
    ensures
        spec_ignite_cells(width, ft, tiles, cells).len() == ft.len(),
    decreases cells.len(),
{
    if cells.len() > 0 {
        lemma_ignite_cells_len(width, ft, tiles, cells.drop_last());
    }
}

proof fn lemma_ignite_len(width: int, ft: Seq<i32>, tiles: Seq<TileType>, fires: Seq<OnFire>)
    ensures
        spec_ignite(width, ft, tiles, fires).len() == ft.len(),
    decreases fires.len(),
{
    if fires.len() > 0 {
        lemma_ignite_len(width, ft, tiles, fires.drop_last());
        if fires.last().fighter {
            lemma_ignite_cells_len(
                width,
                spec_ignite(width, ft, tiles, fires.drop_last()),
                tiles,
                fires.last().cells@,
            );
        }
    }
}

} // verus!
