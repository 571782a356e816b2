use vstd::prelude::*;
use rltk::RandomNumberGenerator;
use crate::geometry::Point;
use crate::builders::{room_cells, spec_floor_cells, spec_room_inside, Rect};
use crate::map::{TileMap, TileType};

verus! {

#[verifier::external_type_specification]
#[verifier::external_body]
pub struct ExRandomNumberGenerator(RandomNumberGenerator);

/// A fresh random number generator, seeded by the system.
///
/// Calls `RandomNumberGenerator::new` of `rltk`; nothing is claimed of the
/// generator's state.
#[verifier::external_body]
pub(crate) fn new_rng() -> RandomNumberGenerator {
    RandomNumberGenerator::new()
}

/// Rolls `n` dice of `die_type` sides and sums them.
///
/// Calls `RandomNumberGenerator::roll_dice` of `rltk`, which adds `n`
/// draws of `range(1, die_type + 1)`, each in `1..=die_type`; the claim is
/// only that the sum lies between `n` and `n * die_type`. `range` panics
/// on an empty range, so `die_type` must be at least 1.
#[verifier::external_body]
pub(crate) fn roll_dice(rng: &mut RandomNumberGenerator, n: i32, die_type: i32) -> (r: i32)
    requires
        n >= 0,
        1 <= die_type < i32::MAX,
        n * die_type <= i32::MAX,
    ensures
        n <= r <= n * die_type,
{
    rng.roll_dice(n, die_type)
}

/// A draw from `min` up to, not including, `max`.
///
/// Calls `RandomNumberGenerator::range` of `rltk`, which samples the
/// half-open range `min..max` and panics when it is empty; the claim is
/// only that the draw lies in that range.
#[verifier::external_body]
pub(crate) fn rng_range(rng: &mut RandomNumberGenerator, min: i32, max: i32) -> (r: i32)
    requires
        min < max,
    ensures
        min <= r < max,
{
    rng.range(min, max)
}

/// The things a room can hold.
#[derive(Clone, Copy, PartialEq, Eq, Structural, Debug)]
pub enum Spawnable {
    Goblin,
    Orc,
    HealthPotion,
    FireballScroll,
    ConfusionScroll,
    MagicMissileScroll,
    Dagger,
    Shield,
    Longsword,
    TowerShield,
}

/// A table of things with weights: a thing of weight `w` comes up `w`
/// times as often as one of weight 1.
pub struct WeightedTable {
    pub entries: Vec<(Spawnable, i32)>,
    pub total_weight: i32,
}

/// The entries after adding `kind` with weight `w`: things that cannot come
/// up (weight zero or less) are left out.
pub open spec fn spec_add(entries: Seq<(Spawnable, i32)>, kind: Spawnable, w: i32) -> Seq<
    (Spawnable, i32),
> {
    if w > 0 {
        entries.push((kind, w))
    } else {
        entries
    }
}

/// The sum of the weights.
pub open spec fn spec_total(entries: Seq<(Spawnable, i32)>) -> int
    decreases entries.len(),
{
    if entries.len() == 0 {
        0
    } else {
        spec_total(entries.drop_last()) + entries.last().1
    }
}

/// The thing whose share of the weights holds the value `r`, counting the
/// shares from zero in table order.
pub open spec fn spec_pick(entries: Seq<(Spawnable, i32)>, r: int) -> Option<Spawnable>
    decreases entries.len(),
{
    if entries.len() == 0 {
        None
    } else if r < entries[0].1 {
        Some(entries[0].0)
    } else {
        spec_pick(entries.drop_first(), r - entries[0].1)
    }
}

impl WeightedTable {
    /// The table holds only positive weights, and their sum.
    pub open spec fn wf(&self) -> bool {
        &&& forall|i: int| 0 <= i < self.entries@.len() ==> #[trigger] self.entries@[i].1 > 0
        &&& self.total_weight == spec_total(self.entries@)
    }

    /// An empty table.
    pub fn new() -> (t: WeightedTable)
        ensures
            t.wf(),
            t.entries@ == Seq::<(Spawnable, i32)>::empty(),
    {
        WeightedTable { entries: Vec::new(), total_weight: 0 }
    }

    /// The table with `kind` added at weight `weight`.
    pub fn add(self, kind: Spawnable, weight: i32) -> (t: WeightedTable)
        requires
            self.wf(),
            self.total_weight + weight <= i32::MAX,
        ensures
            t.wf(),
            t.entries@ == spec_add(self.entries@, kind, weight),
            t.total_weight == self.total_weight + if weight > 0 {
                weight as int
            } else {
                0
            },
    {
        let mut t = self;
        if weight > 0 {
            let ghost before = t.entries@;
            t.entries.push((kind, weight));
            assert(t.entries@.drop_last() =~= before);
            t.total_weight = t.total_weight + weight;
        }
        t
    }

    /// The thing that the value `r` picks, for `r` from 0 up to the total
    /// weight.
    pub fn pick(&self, r: i32) -> (k: Option<Spawnable>)
        requires
            self.wf(),
        ensures
            k == spec_pick(self.entries@, r as int),
    {
        let mut rest: i32 = r;
        let mut i: usize = 0;
        assert(self.entries@.skip(0) =~= self.entries@);
        while i < self.entries.len()
            invariant
                self.wf(),
                i <= self.entries@.len(),
                r >= rest,
                rest >= r - spec_total(self.entries@.take(i as int)),
                spec_pick(self.entries@, r as int) == spec_pick(self.entries@.skip(i as int), rest as int),
            decreases self.entries.len() - i,
        {
            assert(self.entries@.skip(i as int).drop_first() =~= self.entries@.skip(i + 1));
            assert(self.entries@.skip(i as int)[0] == self.entries@[i as int]);
            let (kind, w) = self.entries[i];
            if rest < w {
                return Some(kind);
            }
            proof {
                assert(self.entries@.take(i + 1).drop_last() =~= self.entries@.take(i as int));
            }
            rest = rest - w;
            i = i + 1;
        }
        None
    }

    /// A random thing of the table, each coming up in proportion to its
    /// weight; nothing when the table is empty.
    pub fn roll(&self, rng: &mut RandomNumberGenerator) -> (k: Option<Spawnable>)
        requires
            self.wf(),
            self.total_weight < i32::MAX,
        ensures
            self.total_weight == 0 ==> k is None,
            self.total_weight > 0 ==> exists|r: int|
                0 <= r < self.total_weight && k == spec_pick(self.entries@, r),
    {
        if self.total_weight == 0 {
            return None;
        }
        proof {
            lemma_total_nonneg(self.entries@);
        }
        let r = roll_dice(rng, 1, self.total_weight) - 1;
        self.pick(r)
    }
}

proof fn lemma_total_nonneg(entries: Seq<(Spawnable, i32)>)
    requires
        forall|i: int| 0 <= i < entries.len() ==> #[trigger] entries[i].1 > 0,
    ensures
        spec_total(entries) >= 0,
        entries.len() > 0 ==> spec_total(entries) > 0,
    decreases entries.len(),
{
    if entries.len() > 0 {
        lemma_total_nonneg(entries.drop_last());
        assert(entries.last().1 > 0);
    }
}

proof fn lemma_total_first(entries: Seq<(Spawnable, i32)>)
    requires
        entries.len() > 0,
    ensures
        spec_total(entries) == entries[0].1 + spec_total(entries.drop_first()),
    decreases entries.len(),
{
    if entries.len() > 1 {
        lemma_total_first(entries.drop_last());
        assert(entries.drop_last().drop_first() =~= entries.drop_first().drop_last());
    } else {
        assert(entries.drop_last() =~= Seq::<(Spawnable, i32)>::empty());
        assert(entries.drop_first() =~= Seq::<(Spawnable, i32)>::empty());
    }
}

/// Every value from 0 up to the total weight picks a thing of the table,
/// and the thing it picks is in the table.
pub proof fn lemma_pick_in_table(entries: Seq<(Spawnable, i32)>, r: int)
    requires
        forall|i: int| 0 <= i < entries.len() ==> #[trigger] entries[i].1 > 0,
        0 <= r < spec_total(entries),
    ensures
        spec_pick(entries, r) is Some,
        exists|i: int| 0 <= i < entries.len() && spec_pick(entries, r) == Some(#[trigger] entries[i].0),
    decreases entries.len(),
{
    lemma_total_first(entries);
    if r >= entries[0].1 {
        let rest = entries.drop_first();
        assert forall|i: int| 0 <= i < rest.len() implies #[trigger] rest[i].1 > 0 by {
            assert(rest[i] == entries[i + 1]);
        }
        lemma_pick_in_table(rest, r - entries[0].1);
        let i = choose|i: int| 0 <= i < rest.len() && spec_pick(rest, r - entries[0].1) == Some(#[trigger] rest[i].0);
        assert(entries[i + 1] == rest[i]);
    } else {
        assert(spec_pick(entries, r) == Some(entries[0].0));
    }
}

/// The weights of what a room of level `depth` holds: goblins are common,
/// orcs and spell scrolls grow more common the deeper the level, and the
/// longsword and tower shield appear from the second level on.
pub open spec fn spec_room_table(depth: i32) -> Seq<(Spawnable, i32)> {
    let t0 = spec_add(Seq::empty(), Spawnable::Goblin, 10);
    let t1 = spec_add(t0, Spawnable::Orc, (1 + depth) as i32);
    let t2 = spec_add(t1, Spawnable::HealthPotion, 7);
    let t3 = spec_add(t2, Spawnable::FireballScroll, (2 + depth) as i32);
    let t4 = spec_add(t3, Spawnable::ConfusionScroll, (2 + depth) as i32);
    let t5 = spec_add(t4, Spawnable::MagicMissileScroll, 4);
    let t6 = spec_add(t5, Spawnable::Dagger, 2);
    let t7 = spec_add(t6, Spawnable::Shield, 2);
    let t8 = spec_add(t7, Spawnable::Longsword, (depth - 1) as i32);
    spec_add(t8, Spawnable::TowerShield, (depth - 1) as i32)
}

/// Whether `kind` can come of a roll on the table of level `depth`: some
/// value below the total weight picks it.
pub open spec fn drawn_from_room_table(depth: i32, kind: Spawnable) -> bool {
    exists|r: int|
        0 <= r < spec_total(spec_room_table(depth)) && #[trigger] spec_pick(spec_room_table(depth), r)
            == Some(kind)
}

/// The deepest level whose spawn table's total weight, 28 plus five
/// times the depth, fits in an `i32`.
pub const DEEPEST_LEVEL: i32 = 429_496_723;

/// The spawn table of a level at depth `depth` (its weights and their sum
/// must fit in an `i32`).
pub fn room_table(depth: i32) -> (t: WeightedTable)
    requires
        i32::MIN < depth <= DEEPEST_LEVEL,
    ensures
        t.wf(),
        t.entries@ == spec_room_table(depth),
        10 <= t.total_weight < i32::MAX,
{
    let t = WeightedTable::new().add(Spawnable::Goblin, 10);
    let t = t.add(Spawnable::Orc, 1 + depth);
    let t = t.add(Spawnable::HealthPotion, 7);
    let t = t.add(Spawnable::FireballScroll, 2 + depth);
    let t = t.add(Spawnable::ConfusionScroll, 2 + depth);
    let t = t.add(Spawnable::MagicMissileScroll, 4);
    let t = t.add(Spawnable::Dagger, 2);
    let t = t.add(Spawnable::Shield, 2);
    let t = t.add(Spawnable::Longsword, depth - 1);
    t.add(Spawnable::TowerShield, depth - 1)
}

/// At most this many monsters come with a room, before the depth bonus.
pub const MAX_MONSTERS: i32 = 4;

/// The map is this many cells wide.
pub const MAPWIDTH: usize = 200;

/// How many things a region of `len` cells receives when the spawn roll is
/// `roll`: the roll plus the depth bonus, but no more than the cells.
pub open spec fn spec_num_spawns(len: int, roll: int, depth: int) -> int {
    let wanted = roll + (depth - 1) - 3;
    if len <= wanted {
        len
    } else {
        wanted
    }
}

/// The cells left to choose from after `k` choices, and the planned
/// spawns, when `index_rolls[k]` picks the `index_rolls[k]`-th remaining
/// cell (any roll picks the only cell when one is left) and `kind_rolls[k]`
/// picks the thing from the table.
pub open spec fn spec_plan(
    area: Seq<usize>,
    entries: Seq<(Spawnable, i32)>,
    index_rolls: Seq<i32>,
    kind_rolls: Seq<i32>,
    k: nat,
) -> (Seq<usize>, Seq<(usize, Spawnable)>)
    decreases k,
{
    if k == 0 {
        (area, seq![])
    } else {
        let prev = spec_plan(area, entries, index_rolls, kind_rolls, (k - 1) as nat);
        let areas = prev.0;
        let i: int = if areas.len() == 1 {
            0
        } else {
            index_rolls[k - 1] - 1
        };
        (
            areas.remove(i),
            prev.1.push((areas[i], spec_pick(entries, kind_rolls[k - 1] as int).unwrap())),
        )
    }
}

/// The rolls of each choice are in range: each index roll picks a cell
/// among those left, each kind roll a share of the table's weight.
pub open spec fn rolls_in_range(
    area_len: int,
    total: int,
    index_rolls: Seq<i32>,
    kind_rolls: Seq<i32>,
    n: int,
) -> bool {
    &&& index_rolls.len() >= n
    &&& kind_rolls.len() >= n
    &&& forall|k: int| 0 <= k < n ==> 1 <= #[trigger] index_rolls[k] <= area_len - k
    &&& forall|k: int| 0 <= k < n ==> 0 <= #[trigger] kind_rolls[k] < total
}

/// The cells and things of a region's spawns, given the rolls: `n`
/// choices, each taking one of the cells left.
pub fn plan_spawns(
    area: &Vec<usize>,
    table: &WeightedTable,
    n: usize,
    index_rolls: &Vec<i32>,
    kind_rolls: &Vec<i32>,
) -> (plan: Vec<(usize, Spawnable)>)
    requires
        table.wf(),
        n <= area@.len(),
        rolls_in_range(area@.len() as int, table.total_weight as int, index_rolls@, kind_rolls@, n as int),
    ensures
        plan@ == spec_plan(area@, table.entries@, index_rolls@, kind_rolls@, n as nat).1,
{
    let mut areas: Vec<usize> = area.clone();
    let mut plan: Vec<(usize, Spawnable)> = Vec::new();
    let mut k: usize = 0;
    while k < n
        invariant
            table.wf(),
            k <= n <= area@.len(),
            rolls_in_range(area@.len() as int, table.total_weight as int, index_rolls@, kind_rolls@, n as int),
            areas@ == spec_plan(area@, table.entries@, index_rolls@, kind_rolls@, k as nat).0,
            plan@ == spec_plan(area@, table.entries@, index_rolls@, kind_rolls@, k as nat).1,
            areas@.len() == area@.len() - k,
        decreases n - k,
    {
        let roll = index_rolls[k];
        let array_index: usize = if areas.len() == 1 {
            0
        } else {
            (roll - 1) as usize
        };
        let map_idx = areas[array_index];
        let kind_roll = kind_rolls[k];
        proof {
            lemma_pick_in_table(table.entries@, kind_roll as int);
        }
        let kind = table.pick(kind_roll).unwrap();
        plan.push((map_idx, kind));
        areas.remove(array_index);
        k = k + 1;
    }
    plan
}

/// Every planned cell is one of the region's cells, and every planned
/// thing is the table's pick for its kind roll.
pub proof fn lemma_plan_cells_from_area(
    area: Seq<usize>,
    entries: Seq<(Spawnable, i32)>,
    index_rolls: Seq<i32>,
    kind_rolls: Seq<i32>,
    n: nat,
)
    requires
        n <= area.len(),
        rolls_in_range(area.len() as int, spec_total(entries), index_rolls, kind_rolls, n as int),
    ensures
        spec_plan(area, entries, index_rolls, kind_rolls, n).0.len() == area.len() - n,
        forall|c: usize| #[trigger]
            spec_plan(area, entries, index_rolls, kind_rolls, n).0.contains(c) ==> area.contains(c),
        forall|i: int|
            0 <= i < spec_plan(area, entries, index_rolls, kind_rolls, n).1.len() ==> area.contains(
                (#[trigger] spec_plan(area, entries, index_rolls, kind_rolls, n).1[i]).0,
            ),
        spec_plan(area, entries, index_rolls, kind_rolls, n).1.len() == n,
        forall|i: int|
            0 <= i < n ==> (#[trigger] spec_plan(area, entries, index_rolls, kind_rolls, n).1[i]).1
                == spec_pick(entries, kind_rolls[i] as int).unwrap(),
    decreases n,
{
    if n > 0 {
        lemma_plan_cells_from_area(area, entries, index_rolls, kind_rolls, (n - 1) as nat);
        let prev = spec_plan(area, entries, index_rolls, kind_rolls, (n - 1) as nat);
        let areas = prev.0;
        let i: int = if areas.len() == 1 {
            0
        } else {
            index_rolls[n - 1] - 1
        };
        assert(areas.contains(areas[i]));
        let cur = spec_plan(area, entries, index_rolls, kind_rolls, n);
        assert forall|c: usize| #[trigger] cur.0.contains(c) implies area.contains(c) by {
            let j = choose|j: int| 0 <= j < cur.0.len() && cur.0[j] == c;
            if j < i {
                assert(areas[j] == c);
            } else {
                assert(areas[j + 1] == c);
            }
            assert(areas.contains(c));
        }
        assert forall|j: int| 0 <= j < cur.1.len() implies area.contains((#[trigger] cur.1[j]).0) by {
            if j < cur.1.len() - 1 {
                assert(cur.1[j] == prev.1[j]);
            }
        }
        assert forall|j: int| 0 <= j < n implies (#[trigger] cur.1[j]).1 == spec_pick(
            entries,
            kind_rolls[j] as int,
        ).unwrap() by {
            if j < n - 1 {
                assert(cur.1[j] == prev.1[j]);
            }
        }
    }
}

/// No two planned spawns share a cell, when the region lists each cell
/// once: a chosen cell leaves the cells left to choose from.
pub proof fn lemma_plan_cells_distinct(
    area: Seq<usize>,
    entries: Seq<(Spawnable, i32)>,
    index_rolls: Seq<i32>,
    kind_rolls: Seq<i32>,
    n: nat,
)
    requires
        n <= area.len(),
        area.no_duplicates(),
        rolls_in_range(area.len() as int, spec_total(entries), index_rolls, kind_rolls, n as int),
    ensures
        spec_plan(area, entries, index_rolls, kind_rolls, n).0.no_duplicates(),
        forall|a: int, c: int|
            0 <= a < spec_plan(area, entries, index_rolls, kind_rolls, n).1.len() && 0 <= c
                < spec_plan(area, entries, index_rolls, kind_rolls, n).0.len() ==> (#[trigger] spec_plan(
                area,
                entries,
                index_rolls,
                kind_rolls,
                n,
            ).1[a]).0 != #[trigger] spec_plan(area, entries, index_rolls, kind_rolls, n).0[c],
        forall|a: int, b: int|
            0 <= a < b < spec_plan(area, entries, index_rolls, kind_rolls, n).1.len() ==> (#[trigger] spec_plan(
                area,
                entries,
                index_rolls,
                kind_rolls,
                n,
            ).1[a]).0 != (#[trigger] spec_plan(area, entries, index_rolls, kind_rolls, n).1[b]).0,
    decreases n,
{
    lemma_plan_cells_from_area(area, entries, index_rolls, kind_rolls, n);
    if n > 0 {
        lemma_plan_cells_distinct(area, entries, index_rolls, kind_rolls, (n - 1) as nat);
        lemma_plan_cells_from_area(area, entries, index_rolls, kind_rolls, (n - 1) as nat);
        let prev = spec_plan(area, entries, index_rolls, kind_rolls, (n - 1) as nat);
        let areas = prev.0;
        let i: int = if areas.len() == 1 {
            0
        } else {
            index_rolls[n - 1] - 1
        };
        let cur = spec_plan(area, entries, index_rolls, kind_rolls, n);
        assert(cur.0 == areas.remove(i));
        assert(cur.1 == prev.1.push((areas[i], spec_pick(entries, kind_rolls[n - 1] as int).unwrap())));
        assert forall|a: int, c: int| 0 <= a < cur.1.len() && 0 <= c < cur.0.len() implies (#[trigger] cur.1[a]).0
            != #[trigger] cur.0[c] by {
            let ac = if c < i { c } else { c + 1 };
            assert(cur.0[c] == areas[ac]);
            if a < cur.1.len() - 1 {
                assert(cur.1[a] == prev.1[a]);
                assert(prev.1[a].0 != areas[ac]);
            } else {
                assert(cur.1[a].0 == areas[i]);
                assert(ac != i);
            }
        }
        assert forall|a: int, b: int| 0 <= a < b < cur.1.len() implies (#[trigger] cur.1[a]).0 != (
        #[trigger] cur.1[b]).0 by {
            assert(cur.1[a] == prev.1[a]);
            if b < cur.1.len() - 1 {
                assert(cur.1[b] == prev.1[b]);
            } else {
                assert(cur.1[b].0 == areas[i]);
                assert(prev.1[a].0 != areas[i]);
            }
        }
        assert forall|x: int, y: int| 0 <= x < y < cur.0.len() implies cur.0[x] != cur.0[y] by {
            let ax = if x < i { x } else { x + 1 };
            let ay = if y < i { y } else { y + 1 };
            assert(cur.0[x] == areas[ax]);
            assert(cur.0[y] == areas[ay]);
            assert(ax != ay);
        }
    }
}

/// The spawns of a region of cells at level `depth`: a random number of
/// things (a die of seven sides plus the depth bonus, no more than the
/// cells), each on a different random cell, each drawn from the level's
/// table.
pub fn spawn_region(area: &Vec<usize>, map_depth: i32) -> (plan: Vec<(usize, Spawnable)>)
    requires
        i32::MIN + 3 <= map_depth <= DEEPEST_LEVEL,
        area@.len() < i32::MAX,
    ensures
        plan@.len() <= area@.len(),
        forall|i: int| 0 <= i < plan@.len() ==> area@.contains((#[trigger] plan@[i]).0),
        forall|i: int| 0 <= i < plan@.len() ==> drawn_from_room_table(map_depth, (#[trigger] plan@[i]).1),
        area@.no_duplicates() ==> forall|a: int, b: int|
            0 <= a < b < plan@.len() ==> (#[trigger] plan@[a]).0 != (#[trigger] plan@[b]).0,
        exists|roll: int|
            1 <= roll <= MAX_MONSTERS + 3 && plan@.len() == (if spec_num_spawns(
                area@.len() as int,
                roll,
                map_depth as int,
            ) <= 0 {
                0
            } else {
                #[trigger] spec_num_spawns(area@.len() as int, roll, map_depth as int)
            }),
{
    let spawn_table = room_table(map_depth);
    let mut rng = new_rng();
    let roll = roll_dice(&mut rng, 1, MAX_MONSTERS + 3);
    let wanted = roll + (map_depth - 1) - 3;
    let len = area.len() as i32;
    let num_spawns = if len <= wanted {
        len
    } else {
        wanted
    };
    assert(num_spawns == spec_num_spawns(area@.len() as int, roll as int, map_depth as int));
    if num_spawns <= 0 {
        return Vec::new();
    }
    let n = num_spawns as usize;
    proof {
        lemma_total_nonneg(spawn_table.entries@);
    }
    let mut index_rolls: Vec<i32> = Vec::new();
    let mut kind_rolls: Vec<i32> = Vec::new();
    let mut k: usize = 0;
    while k < n
        invariant
            spawn_table.wf(),
            0 < spawn_table.total_weight < i32::MAX,
            n <= area@.len() < i32::MAX,
            k <= n,
            index_rolls@.len() == k,
            kind_rolls@.len() == k,
            forall|j: int| 0 <= j < k ==> 1 <= #[trigger] index_rolls@[j] <= area@.len() - j,
            forall|j: int| 0 <= j < k ==> 0 <= #[trigger] kind_rolls@[j] < spawn_table.total_weight,
        decreases n - k,
    {
        let left = (area.len() - k) as i32;
        let ir = roll_dice(&mut rng, 1, left);
        index_rolls.push(ir);
        let kr = roll_dice(&mut rng, 1, spawn_table.total_weight) - 1;
        kind_rolls.push(kr);
        k = k + 1;
    }
    let plan = plan_spawns(area, &spawn_table, n, &index_rolls, &kind_rolls);
    proof {
        lemma_plan_cells_from_area(area@, spawn_table.entries@, index_rolls@, kind_rolls@, n as nat);
        let entries = spawn_table.entries@;
        assert forall|i: int| 0 <= i < plan@.len() implies drawn_from_room_table(
            map_depth,
            (#[trigger] plan@[i]).1,
        ) by {
            lemma_pick_in_table(entries, kind_rolls@[i] as int);
            assert(spec_pick(entries, kind_rolls@[i] as int) == Some(plan@[i].1));
        }
        if area@.no_duplicates() {
            lemma_plan_cells_distinct(area@, spawn_table.entries@, index_rolls@, kind_rolls@, n as nat);
        }
    }
    plan
}

/// Later inside cells of a room lie at larger map indices, all of them on
/// the map.
proof fn lemma_inside_idx_ordered(map: &TileMap, room: Rect, a: int, b: int)
    requires
        map.wf(),
        room.x2 > room.x1 + 1,
        room.y2 > room.y1 + 1,
        map.spec_in_bounds(room.x1 + 1, room.y1 + 1),
        map.spec_in_bounds(room.x2 - 1, room.y2 - 1),
        0 <= a <= b < spec_room_inside(room).len(),
    ensures
        0 <= map.spec_point_idx(spec_room_inside(room)[a]) < map.size(),
        a < b ==> map.spec_point_idx(spec_room_inside(room)[a]) < map.spec_point_idx(
            spec_room_inside(room)[b],
        ),
{
    let w: int = room.x2 - room.x1 - 1;
    let h: int = room.y2 - room.y1 - 1;
    let ww: int = map.width as int;
    let hh: int = map.height as int;
    assert(0 <= a < w * h);
    assert(0 <= b < w * h);
    vstd::arithmetic::div_mod::lemma_fundamental_div_mod(a, w);
    vstd::arithmetic::div_mod::lemma_fundamental_div_mod(b, w);
    let qa = a / w;
    let ra = a % w;
    let qb = b / w;
    let rb = b % w;
    assert(0 <= ra < w && 0 <= rb < w);
    assert(0 <= qa < h && 0 <= qb < h && qa <= qb) by (nonlinear_arith)
        requires
            a == w * qa + ra,
            b == w * qb + rb,
            0 <= ra < w,
            0 <= rb < w,
            0 <= a <= b < w * h,
            w > 0,
    ;
    let pa = spec_room_inside(room)[a];
    let pb = spec_room_inside(room)[b];
    assert(pa.x == room.x1 + 1 + ra && pa.y == room.y1 + 1 + qa);
    assert(pb.x == room.x1 + 1 + rb && pb.y == room.y1 + 1 + qb);
    assert(0 <= map.spec_point_idx(pa) < map.size()) by (nonlinear_arith)
        requires
            0 <= pa.x < ww,
            0 <= pa.y < hh,
            map.spec_point_idx(pa) == pa.y * ww + pa.x,
            map.size() == ww * hh,
    ;
    if a < b {
        if qa == qb {
            assert(ra < rb) by (nonlinear_arith)
                requires
                    a == w * qa + ra,
                    b == w * qb + rb,
                    qa == qb,
                    a < b,
            ;
        }
        assert(map.spec_point_idx(pa) < map.spec_point_idx(pb)) by (nonlinear_arith)
            requires
                map.spec_point_idx(pa) == pa.y * ww + pa.x,
                map.spec_point_idx(pb) == pb.y * ww + pb.x,
                pa.y <= pb.y,
                pa.y == pb.y ==> pa.x < pb.x,
                0 <= pa.x < ww,
                0 <= pb.x < ww,
        ;
    }
}

/// The floor cells among the first `k` inside cells of a room come in
/// increasing order, each below the index of every later inside cell.
proof fn lemma_floor_cells_increasing(map: &TileMap, room: Rect, k: int)
    requires
        map.wf(),
        room.x2 > room.x1 + 1,
        room.y2 > room.y1 + 1,
        map.spec_in_bounds(room.x1 + 1, room.y1 + 1),
        map.spec_in_bounds(room.x2 - 1, room.y2 - 1),
        0 <= k <= spec_room_inside(room).len(),
    ensures
        forall|i: int, j: int|
            0 <= i < j < spec_floor_cells(map, spec_room_inside(room).take(k)).len() ==> (
            #[trigger] spec_floor_cells(map, spec_room_inside(room).take(k))[i])
                < #[trigger] spec_floor_cells(map, spec_room_inside(room).take(k))[j],
        forall|i: int, m: int|
            0 <= i < spec_floor_cells(map, spec_room_inside(room).take(k)).len() && k <= m
                < spec_room_inside(room).len() ==> (#[trigger] spec_floor_cells(
                map,
                spec_room_inside(room).take(k),
            )[i]) < map.spec_point_idx(#[trigger] spec_room_inside(room)[m]),
    decreases k,
{
    let inside = spec_room_inside(room);
    if k == 0 {
        assert(inside.take(0).len() == 0);
    } else {
        lemma_floor_cells_increasing(map, room, k - 1);
        assert(inside.take(k).drop_last() =~= inside.take(k - 1));
        assert(inside.take(k).last() == inside[k - 1]);
        let prev = spec_floor_cells(map, inside.take(k - 1));
        let cur = spec_floor_cells(map, inside.take(k));
        let last = inside[k - 1];
        lemma_inside_idx_ordered(map, room, k - 1, k - 1);
        if map.tiles@[map.spec_point_idx(last)] == TileType::Floor {
            assert(cur == prev.push(map.spec_point_idx(last) as usize));
            assert forall|i: int, j: int| 0 <= i < j < cur.len() implies #[trigger] cur[i] < #[trigger] cur[j] by {
                assert(cur[i] == prev[i]);
                if j < cur.len() - 1 {
                    assert(cur[j] == prev[j]);
                } else {
                    assert(prev[i] < map.spec_point_idx(inside[k - 1]));
                }
            }
            assert forall|i: int, m: int|
                0 <= i < cur.len() && k <= m < inside.len() implies (#[trigger] cur[i])
                < map.spec_point_idx(#[trigger] inside[m]) by {
                lemma_inside_idx_ordered(map, room, k - 1, m);
                if i < cur.len() - 1 {
                    assert(cur[i] == prev[i]);
                    assert(prev[i] < map.spec_point_idx(inside[m]));
                }
            }
        } else {
            assert(cur == prev);
            assert forall|i: int, m: int|
                0 <= i < cur.len() && k <= m < inside.len() implies (#[trigger] cur[i])
                < map.spec_point_idx(#[trigger] inside[m]) by {
                assert(prev[i] < map.spec_point_idx(inside[m]));
            }
        }
    }
}

/// The floor cells inside a room hold no cell twice.
proof fn lemma_floor_cells_distinct(map: &TileMap, room: Rect)
    requires
        map.wf(),
        room.x2 > room.x1 + 1 ==> room.y2 > room.y1 + 1 ==> map.spec_in_bounds(
            room.x1 + 1,
            room.y1 + 1,
        ) && map.spec_in_bounds(room.x2 - 1, room.y2 - 1),
    ensures
        spec_floor_cells(map, spec_room_inside(room)).no_duplicates(),
{
    let inside = spec_room_inside(room);
    if room.x2 > room.x1 + 1 && room.y2 > room.y1 + 1 {
        lemma_floor_cells_increasing(map, room, inside.len() as int);
        assert(inside.take(inside.len() as int) =~= inside);
        let fc = spec_floor_cells(map, inside);
        assert forall|i: int, j: int| 0 <= i < fc.len() && 0 <= j < fc.len() && i != j implies fc[i]
            != fc[j] by {
            if i < j {
                assert(fc[i] < fc[j]);
            } else {
                assert(fc[j] < fc[i]);
            }
        }
    } else {
        assert(inside.len() == 0);
        assert(spec_floor_cells(map, inside).len() == 0);
    }
}

/// The things that appear in a room at level `depth`: the spawns of
/// `spawn_region` on the room's inside floor cells, which hold no cell
/// twice (the room must leave fewer than `i32::MAX` floor cells, for the dice).
pub fn spawn_room(map: &TileMap, room: &Rect, depth: i32) -> (plan: Vec<(usize, Spawnable)>)
    requires
        map.wf(),
        room.x2 > room.x1 + 1 ==> room.y2 > room.y1 + 1 ==> map.spec_in_bounds(
            room.x1 + 1,
            room.y1 + 1,
        ) && map.spec_in_bounds(room.x2 - 1, room.y2 - 1),
        i32::MIN + 3 <= depth <= DEEPEST_LEVEL,
        spec_floor_cells(map, spec_room_inside(*room)).len() < i32::MAX,
    ensures
        plan@.len() <= spec_floor_cells(map, spec_room_inside(*room)).len(),
        forall|i: int|
            0 <= i < plan@.len() ==> spec_floor_cells(map, spec_room_inside(*room)).contains(
                (#[trigger] plan@[i]).0,
            ),
        forall|i: int| 0 <= i < plan@.len() ==> drawn_from_room_table(depth, (#[trigger] plan@[i]).1),
        forall|a: int, b: int|
            0 <= a < b < plan@.len() ==> (#[trigger] plan@[a]).0 != (#[trigger] plan@[b]).0,
        exists|roll: int|
            1 <= roll <= MAX_MONSTERS + 3 && plan@.len() == (if spec_num_spawns(
                spec_floor_cells(map, spec_room_inside(*room)).len() as int,
                roll,
                depth as int,
            ) <= 0 {
                0
            } else {
                #[trigger] spec_num_spawns(
                    spec_floor_cells(map, spec_room_inside(*room)).len() as int,
                    roll,
                    depth as int,
                )
            }),
{
    let cells = room_cells(map, room);
    proof {
        lemma_floor_cells_distinct(map, *room);
    }
    spawn_region(&cells, depth)
}

/// The cell of map index `idx` on the full-size map.
pub fn spawn_location(idx: usize) -> (p: Point)
    requires
        idx / MAPWIDTH <= i32::MAX,
    ensures
        p.x == idx % MAPWIDTH,
        p.y == idx / MAPWIDTH,
{
    Point { x: (idx % MAPWIDTH) as i32, y: (idx / MAPWIDTH) as i32 }
}

/// What a spawner makes.
#[derive(Clone, Copy, PartialEq, Eq, Structural, Debug)]
pub enum SpawnerType {
    Orc,
    Fish,
}

/// A spawner: its first cell, how often it spawns, its side and what it
/// spawns.
#[derive(Clone, Copy, PartialEq, Eq, Structural, Debug)]
pub struct SpawnerInfo {
    pub pos: Point,
    pub rate: i32,
    pub faction: i32,
    pub typ: SpawnerType,
}

/// A creature to create: where, on whose side, and of what kind.
#[derive(Clone, Copy, PartialEq, Eq, Structural, Debug)]
pub struct SpawnRequest {
    pub at: Point,
    pub faction: i32,
    pub typ: SpawnerType,
}

/// Whether a spawner spawns on turn `turn`: on every turn that the rate
/// divides, so every `|rate|` turns.
pub open spec fn spawns_on(turn: int, rate: int) -> bool {
    turn % rate == 0
}

/// The spawns of turn `turn`: each spawner whose turn has come makes its
/// creature on the cell just below it.
pub open spec fn spec_spawns(spawners: Seq<SpawnerInfo>, turn: int) -> Seq<SpawnRequest>
    decreases spawners.len(),
{
    if spawners.len() == 0 {
        seq![]
    } else {
        let rest = spec_spawns(spawners.drop_last(), turn);
        let s = spawners.last();
        if spawns_on(turn, s.rate as int) {
            rest.push(
                SpawnRequest {
                    at: Point { x: s.pos.x, y: (s.pos.y + 1) as i32 },
                    faction: s.faction,
                    typ: s.typ,
                },
            )
        } else {
            rest
        }
    }
}

/// A spawner can spawn: it has a nonzero rate and room below it.
pub open spec fn spawner_ok(s: SpawnerInfo) -> bool {
    s.rate != 0 && s.pos.y < i32::MAX
}

/// A rate divides a turn exactly when it divides the negated turn.
proof fn lemma_negated_divisible(t: int, r: int)
    requires
        r != 0,
    ensures
        ((-t) % r == 0) == (t % r == 0),
{
    vstd::arithmetic::div_mod::lemma_fundamental_div_mod(t, r);
    vstd::arithmetic::div_mod::lemma_fundamental_div_mod(-t, r);
    let a = t / r;
    let b = (-t) / r;
    let m = t % r;
    let n = (-t) % r;
    let ar: int = if r < 0 { -r } else { r };
    assert(0 <= m < ar);
    assert(0 <= n < ar);
    if m == 0 {
        assert(r * (a + b) == -n) by (nonlinear_arith)
            requires
                t == r * a + m,
                -t == r * b + n,
                m == 0,
        ;
        assert(n == 0) by (nonlinear_arith)
            requires
                r * (a + b) == -n,
                0 <= n < ar,
                ar == (if r < 0 { -r } else { r }),
        ;
    }
    if n == 0 {
        assert(r * (a + b) == -m) by (nonlinear_arith)
            requires
                t == r * a + m,
                -t == r * b + n,
                n == 0,
        ;
        assert(m == 0) by (nonlinear_arith)
            requires
                r * (a + b) == -m,
                0 <= m < ar,
                ar == (if r < 0 { -r } else { r }),
        ;
    }
}

/// The creatures the spawners make on turn `turn`.
pub fn run_spawner_system(spawners: &Vec<SpawnerInfo>, turn: i32) -> (r: Vec<SpawnRequest>)
    requires
        forall|i: int| 0 <= i < spawners@.len() ==> spawner_ok(#[trigger] spawners@[i]),
        turn == i32::MIN ==> forall|i: int| 0 <= i < spawners@.len() ==> (#[trigger] spawners@[i]).rate != -1,
    ensures
        r@ == spec_spawns(spawners@, turn as int),
{
    let mut r: Vec<SpawnRequest> = Vec::new();
    let mut i: usize = 0;
    while i < spawners.len()
        invariant
            i <= spawners@.len(),
            forall|k: int| 0 <= k < spawners@.len() ==> spawner_ok(#[trigger] spawners@[k]),
            turn == i32::MIN ==> forall|k: int| 0 <= k < spawners@.len() ==> (#[trigger] spawners@[k]).rate != -1,
            r@ == spec_spawns(spawners@.take(i as int), turn as int),
        decreases spawners.len() - i,
    {
        let s = spawners[i];
        assert(spawner_ok(spawners@[i as int]));
        assert(spawners@.take(i + 1).drop_last() =~= spawners@.take(i as int));
        proof {
            lemma_negated_divisible(turn as int, s.rate as int);
        }
        if turn % s.rate == 0 {
            r.push(SpawnRequest { at: Point { x: s.pos.x, y: s.pos.y + 1 }, faction: s.faction, typ: s.typ });
        }
        i = i + 1;
    }
    assert(spawners@.take(spawners.len() as int) =~= spawners@);
    r
}

} // verus!
