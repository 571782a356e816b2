use vstd::prelude::*;
use rltk::RandomNumberGenerator;
use crate::geometry::Point;
use crate::map::{spec_xy_idx, EntityId, TileMap, TileType};
use crate::spawning::{new_rng, roll_dice, SpawnerType};

verus! {

/// Whether map generation keeps a snapshot of every step.
pub const SHOW_MAPGEN_ANIMATION: bool = true;

/// The full map's width in cells.
pub const MAPWIDTH: i32 = 200;
/// The full map's height in cells.
pub const MAPHEIGHT: i32 = 80;

/// A rectangle of cells from corner `(x1, y1)` to corner `(x2, y2)`.
#[derive(Clone, Copy, PartialEq, Eq, Structural, Debug)]
pub struct Rect {
    pub x1: i32,
    pub y1: i32,
    pub x2: i32,
    pub y2: i32,
}

/// The inside cells of `room` (its border excluded), row by row.
pub open spec fn spec_room_inside(room: Rect) -> Seq<Point> {
    let w = room.x2 - room.x1 - 1;
    let h = room.y2 - room.y1 - 1;
    if w <= 0 || h <= 0 {
        seq![]
    } else {
        Seq::new(
            (w * h) as nat,
            |k: int| Point { x: (room.x1 + 1 + k % w) as i32, y: (room.y1 + 1 + k / w) as i32 },
        )
    }
}

/// The map indices of the floor cells of `cells`, in order.
pub open spec fn spec_floor_cells(map: &TileMap, cells: Seq<Point>) -> Seq<usize>
    decreases cells.len(),
{
    if cells.len() == 0 {
        seq![]
    } else {
        let rest = spec_floor_cells(map, cells.drop_last());
        let idx = map.spec_point_idx(cells.last());
        if map.tiles@[idx] == TileType::Floor {
            rest.push(idx as usize)
        } else {
            rest
        }
    }
}

proof fn lemma_inside_step(room: Rect, x: int, y: int)
    requires
        room.x1 + 1 <= x < room.x2,
        room.y1 + 1 <= y < room.y2,
    ensures
        ({
            let w = room.x2 - room.x1 - 1;
            let k = (y - room.y1 - 1) * w + (x - room.x1 - 1);
            &&& 0 <= k < spec_room_inside(room).len()
            &&& spec_room_inside(room)[k] == Point { x: x as i32, y: y as i32 }
        }),
{
    let w = room.x2 - room.x1 - 1;
    let h = room.y2 - room.y1 - 1;
    let a = y - room.y1 - 1;
    let b = x - room.x1 - 1;
    let k = a * w + b;
    assert(0 <= k < w * h && k % w == b && k / w == a) by (nonlinear_arith)
        requires
            0 <= a < h,
            0 <= b < w,
            k == a * w + b,
    ;
}

/// The floor cells inside a room, where the room's things may appear.
pub fn room_cells(map: &TileMap, room: &Rect) -> (r: Vec<usize>)
    requires
        map.wf(),
        room.x2 > room.x1 + 1 ==> room.y2 > room.y1 + 1 ==> map.spec_in_bounds(
            room.x1 + 1,
            room.y1 + 1,
        ) && map.spec_in_bounds(room.x2 - 1, room.y2 - 1),
    ensures
        r@ == spec_floor_cells(map, spec_room_inside(*room)),
{
    let mut r: Vec<usize> = Vec::new();
    if (room.x2 as i64) <= (room.x1 as i64) + 1 || (room.y2 as i64) <= (room.y1 as i64) + 1 {
        return r;
    }
    let ghost inside = spec_room_inside(*room);
    let ghost w = room.x2 - room.x1 - 1;
    let mut y = room.y1 + 1;
    while y < room.y2
        invariant
            map.wf(),
            room.y1 + 1 <= y <= room.y2,
            room.x2 > room.x1 + 1,
            map.spec_in_bounds(room.x1 + 1, room.y1 + 1),
            map.spec_in_bounds(room.x2 - 1, room.y2 - 1),
            inside == spec_room_inside(*room),
            w == room.x2 - room.x1 - 1,
            r@ == spec_floor_cells(map, inside.take((y - room.y1 - 1) * w)),
        decreases room.y2 - y,
    {
        let mut x = room.x1 + 1;
        while x < room.x2
            invariant
                map.wf(),
                room.y1 + 1 <= y < room.y2,
                room.x1 + 1 <= x <= room.x2,
                map.spec_in_bounds(room.x1 + 1, room.y1 + 1),
                map.spec_in_bounds(room.x2 - 1, room.y2 - 1),
                inside == spec_room_inside(*room),
                w == room.x2 - room.x1 - 1,
                r@ == spec_floor_cells(map, inside.take((y - room.y1 - 1) * w + (x - room.x1 - 1))),
            decreases room.x2 - x,
        {
            proof {
                lemma_inside_step(*room, x as int, y as int);
            }
            let ghost k = (y - room.y1 - 1) * w + (x - room.x1 - 1);
            assert(inside.take(k + 1).drop_last() =~= inside.take(k));
            assert(inside.take(k + 1).last() == inside[k]);
            let idx = map.xy_idx(x, y);
            if map.tiles[idx] == TileType::Floor {
                r.push(idx);
            }
            x = x + 1;
        }
        assert((y - room.y1 - 1) * w + (room.x2 - room.x1 - 1) == (y + 1 - room.y1 - 1) * w) by (nonlinear_arith)
            requires
                w == room.x2 - room.x1 - 1,
        ;
        y = y + 1;
    }
    proof {
        let h = room.y2 - room.y1 - 1;
        assert((room.y2 - room.y1 - 1) * w == w * h) by (nonlinear_arith)
            requires
                h == room.y2 - room.y1 - 1,
        ;
        assert(inside.take(w * h) =~= inside);
    }
    r
}

impl TileMap {
    /// A copy of the map.
    pub fn duplicate(&self) -> (m: TileMap)
        ensures
            m.width == self.width,
            m.height == self.height,
            m.depth == self.depth,
            m.tiles@ == self.tiles@,
            m.blocked@ == self.blocked@,
            m.fire_turns@ == self.fire_turns@,
            m.tile_content@.len() == self.tile_content@.len(),
            forall|i: int| 0 <= i < m.tile_content@.len() ==> #[trigger] m.tile_content@[i]@ == self.tile_content@[i]@,
    {
        let mut content: Vec<Vec<EntityId>> = Vec::new();
        let mut i: usize = 0;
        while i < self.tile_content.len()
            invariant
                i <= self.tile_content@.len(),
                content@.len() == i,
                forall|k: int| 0 <= k < i ==> #[trigger] content@[k]@ == self.tile_content@[k]@,
            decreases self.tile_content.len() - i,
        {
            let c = self.tile_content[i].clone();
            assert(c@ =~= self.tile_content@[i as int]@) by {
                assert(vstd::std_specs::vec::vec_clone_trigger(self.tile_content@[i as int], c));
            }
            content.push(c);
            i = i + 1;
        }
        let mut tiles: Vec<TileType> = Vec::new();
        let mut blocked: Vec<bool> = Vec::new();
        let mut fire_turns: Vec<i32> = Vec::new();
        let mut j: usize = 0;
        while j < self.tiles.len()
            invariant
                j <= self.tiles@.len(),
                tiles@ == self.tiles@.take(j as int),
            decreases self.tiles.len() - j,
        {
            tiles.push(self.tiles[j]);
            assert(tiles@ =~= self.tiles@.take(j + 1));
            j = j + 1;
        }
        let mut j: usize = 0;
        while j < self.blocked.len()
            invariant
                j <= self.blocked@.len(),
                blocked@ == self.blocked@.take(j as int),
            decreases self.blocked.len() - j,
        {
            blocked.push(self.blocked[j]);
            assert(blocked@ =~= self.blocked@.take(j + 1));
            j = j + 1;
        }
        let mut j: usize = 0;
        while j < self.fire_turns.len()
            invariant
                j <= self.fire_turns@.len(),
                fire_turns@ == self.fire_turns@.take(j as int),
            decreases self.fire_turns.len() - j,
        {
            fire_turns.push(self.fire_turns[j]);
            assert(fire_turns@ =~= self.fire_turns@.take(j + 1));
            j = j + 1;
        }
        assert(tiles@ =~= self.tiles@);
        assert(blocked@ =~= self.blocked@);
        assert(fire_turns@ =~= self.fire_turns@);
        TileMap {
            width: self.width,
            height: self.height,
            depth: self.depth,
            tiles,
            blocked,
            tile_content: content,
            fire_turns,
        }
    }
}

/// The things a map builder places when the level starts.
#[derive(Clone, Copy, PartialEq, Eq, Structural, Debug)]
pub enum EntityPlan {
    Tree { x: i32, y: i32 },
    PlankHouse { x: i32, y: i32, width: i32, height: i32 },
    ChiefHouse { x: i32, y: i32, width: i32, height: i32 },
    LumberMill { x: i32, y: i32, width: i32, height: i32 },
    FishCleaner { x: i32, y: i32, width: i32, height: i32 },
    Villager { x: i32, y: i32 },
    Spawner { x: i32, y: i32, faction: i32, typ: SpawnerType, rate: i32 },
}

/// The tile of cell `(x, y)` of the village on a `w` x `h` map: a wall
/// border, a river seven rows from the bottom, grass everywhere else.
pub open spec fn spec_village_tile(w: int, h: int, x: int, y: int) -> TileType {
    if x < 1 || x >= w - 1 || y < 1 || y >= h - 1 {
        TileType::Wall
    } else if h - 10 < y < h - 3 {
        TileType::Water
    } else {
        TileType::Grass
    }
}

/// Builds the village map: grass with a river.
pub struct VillageBuilder {
    pub map: TileMap,
    pub starting_position: Point,
    pub depth: i32,
    pub history: Vec<TileMap>,
}

impl VillageBuilder {
    /// A builder for a level at `new_depth`, starting from solid walls.
    pub fn new(new_depth: i32) -> (b: VillageBuilder)
        ensures
            b.map.wf(),
            b.map.width == MAPWIDTH,
            b.map.height == MAPHEIGHT,
            b.map.depth == new_depth,
            forall|i: int| 0 <= i < b.map.size() ==> b.map.tiles@[i] == TileType::Wall,
            b.starting_position == (Point { x: 0, y: 0 }),
            b.depth == new_depth,
            b.history@.len() == 0,
    {
        VillageBuilder {
            map: TileMap::new(new_depth, TileType::Wall, (MAPWIDTH, MAPHEIGHT)),
            starting_position: Point { x: 0, y: 0 },
            depth: new_depth,
            history: Vec::new(),
        }
    }

    /// Keeps a copy of the map as it is now.
    pub fn take_snapshot(&mut self)
        ensures
            final(self).map == old(self).map,
            final(self).starting_position == old(self).starting_position,
            final(self).depth == old(self).depth,
            final(self).history@.len() == old(self).history@.len() + 1,
            final(self).history@.last().tiles@ == old(self).map.tiles@,
            forall|i: int| 0 <= i < old(self).history@.len() ==> final(self).history@[i] == old(self).history@[i],
    {
        if SHOW_MAPGEN_ANIMATION {
            let m = self.map.duplicate();
            self.history.push(m);
        }
    }

    /// Lays out the village: the inside of the map turns to grass, with a
    /// river in rows `h - 9` to `h - 4`; the player starts at the centre.
    pub fn build_map(&mut self)
        requires
            old(self).map.wf(),
            forall|i: int| 0 <= i < old(self).map.size() ==> old(self).map.tiles@[i] == TileType::Wall,
        ensures
            final(self).map.wf(),
            final(self).map.width == old(self).map.width,
            final(self).map.height == old(self).map.height,
            forall|x: int, y: int|
                0 <= x < final(self).map.width && 0 <= y < final(self).map.height ==> #[trigger] final(self).map.tiles@[final(self).map.spec_xy_idx(x, y)]
                    == spec_village_tile(final(self).map.width as int, final(self).map.height as int, x, y),
            final(self).starting_position == (Point {
                x: (old(self).map.width / 2) as i32,
                y: (old(self).map.height / 2) as i32,
            }),
            final(self).history@.len() == old(self).history@.len() + 1,
    {
        let w = self.map.width;
        let h = self.map.height;
        assert forall|xx: int, yy: int| 0 <= xx < w && 0 <= yy < h implies #[trigger] self.map.tiles@[spec_xy_idx(w as int, xx, yy)]
            == (if yy < 1 { spec_village_tile(w as int, h as int, xx, yy) } else { TileType::Wall }) by {
            crate::map::lemma_xy_idx_in_range(w as int, h as int, xx, yy);
        }
        let mut y: i32 = 1;
        while y < h - 1
            invariant
                self.map.wf(),
                self.map.width == w && self.map.height == h,
                self.history@.len() == old(self).history@.len(),
                1 <= y,
                y <= h - 1 || y == 1,
                forall|xx: int, yy: int|
                    0 <= xx < w && 0 <= yy < h ==> #[trigger] self.map.tiles@[spec_xy_idx(w as int, xx, yy)]
                        == (if yy < y { spec_village_tile(w as int, h as int, xx, yy) } else { TileType::Wall }),
            decreases h - y,
        {
            let mut x: i32 = 1;
            while x < w - 1
                invariant
                    self.map.wf(),
                    self.map.width == w && self.map.height == h,
                self.history@.len() == old(self).history@.len(),
                    1 <= y < h - 1,
                    1 <= x,
                    x <= w - 1 || x == 1,
                    forall|xx: int, yy: int|
                        0 <= xx < w && 0 <= yy < h ==> #[trigger] self.map.tiles@[spec_xy_idx(w as int, xx, yy)]
                            == (if yy < y || (yy == y && xx < x) { spec_village_tile(w as int, h as int, xx, yy) } else { TileType::Wall }),
                decreases w - x,
            {
                let idx = self.map.xy_idx(x, y);
                let t = if y > h - 10 && y < h - 3 {
                    TileType::Water
                } else {
                    TileType::Grass
                };
                let ghost before = self.map.tiles@;
                self.map.tiles.set(idx, t);
                proof {
                    assert forall|xx: int, yy: int| 0 <= xx < w && 0 <= yy < h implies #[trigger] self.map.tiles@[spec_xy_idx(w as int, xx, yy)]
                        == (if yy < y || (yy == y && xx < x + 1) { spec_village_tile(w as int, h as int, xx, yy) } else { TileType::Wall }) by {
                        crate::map::lemma_xy_idx_in_range(w as int, h as int, xx, yy);
                        if spec_xy_idx(w as int, xx, yy) == idx as int {
                            crate::map::lemma_xy_idx_roundtrip(self.map, xx, yy);
                            crate::map::lemma_xy_idx_roundtrip(self.map, x as int, y as int);
                        } else {
                            assert(before[spec_xy_idx(w as int, xx, yy)] == (if yy < y || (yy == y && xx < x) { spec_village_tile(w as int, h as int, xx, yy) } else { TileType::Wall }));
                        }
                    }
                }
                x = x + 1;
            }
            y = y + 1;
        }
        self.take_snapshot();
        self.starting_position = Point { x: w / 2, y: h / 2 };
    }

    /// The village's people and buildings: trees scattered over the upper
    /// half (each cell with a chance of 34 in 100), ten plank houses in a
    /// row, the chief's house, a lumber mill, a fish cleaner by the river
    /// and twenty villagers in a column. Whatever the dice give, the result
    /// is the trees of some rolls from 1 to 100, one per cell of the upper
    /// half, followed by the buildings and villagers.
    pub fn spawn_entities(&self) -> (r: Vec<EntityPlan>)
        requires
            self.map.wf(),
            self.map.width == MAPWIDTH,
            self.map.height == MAPHEIGHT,
        ensures
            exists|rolls: Seq<i32>|
                rolls.len() == spec_tree_cell_count(self.map.width as int, self.map.height as int)
                    && (forall|k: int| 0 <= k < rolls.len() ==> 1 <= #[trigger] rolls[k] <= 100)
                    && r@ == #[trigger] spec_village_trees(self.map.width as int, rolls, rolls.len() as int)
                    + spec_village_buildings(self.map.height as int),
            forall|i: int|
                0 <= i < r@.len() ==> (#[trigger] r@[i] is Tree ==> {
                    &&& 1 <= r@[i]->Tree_x < self.map.width - 1
                    &&& 1 <= r@[i]->Tree_y < self.map.height / 2
                }),
            r@.len() >= 33,
            r@.subrange(r@.len() - 33, r@.len() as int) == spec_village_buildings(self.map.height as int),
    {
        let mut rng = new_rng();
        let w = self.map.width;
        let h = self.map.height;
        let n: usize = ((w - 2) * (h / 2 - 1)) as usize;
        let mut rolls: Vec<i32> = Vec::new();
        while rolls.len() < n
            invariant
                rolls@.len() <= n,
                forall|k: int| 0 <= k < rolls@.len() ==> 1 <= #[trigger] rolls@[k] <= 100,
            decreases n - rolls@.len(),
        {
            let roll = roll_dice(&mut rng, 1, 100);
            rolls.push(roll);
        }
        let mut r = village_trees(w, h, &rolls);
        let ghost trees = r@;
        let buildings = village_buildings(h);
        let mut k: usize = 0;
        while k < buildings.len()
            invariant
                k <= buildings@.len(),
                buildings@ == spec_village_buildings(h as int),
                r@ == trees + buildings@.take(k as int),
            decreases buildings.len() - k,
        {
            r.push(buildings[k]);
            assert(r@ =~= trees + buildings@.take(k + 1));
            k = k + 1;
        }
        assert(buildings@.take(buildings@.len() as int) =~= buildings@);
        assert(r@.subrange(r@.len() - 33, r@.len() as int) =~= buildings@);
        assert forall|i: int| 0 <= i < r@.len() implies (#[trigger] r@[i] is Tree ==> {
            &&& 1 <= r@[i]->Tree_x < w - 1
            &&& 1 <= r@[i]->Tree_y < h / 2
        }) by {
            if i >= trees.len() {
                assert(r@[i] == buildings@[i - trees.len()]);
            } else {
                assert(r@[i] == trees[i]);
            }
        }
        r
    }
}

/// How many cells of a `w` x `h` map may hold a tree: those of the rows
/// from 1 to below `h / 2`, without the first and last column.
pub open spec fn spec_tree_cell_count(w: int, h: int) -> int {
    (w - 2) * (h / 2 - 1)
}

/// The cell of the `k`-th tree roll on a map `w` cells wide, counting
/// row by row from (1, 1), columns 1 to `w - 2`.
pub open spec fn spec_tree_cell(w: int, k: int) -> (int, int) {
    (1 + k % (w - 2), 1 + k / (w - 2))
}

/// The trees of the first `k` rolls, in row order: a tree stands on a
/// cell exactly when its roll is below 35.
pub open spec fn spec_village_trees(w: int, rolls: Seq<i32>, k: int) -> Seq<EntityPlan>
    decreases k,
{
    if k <= 0 {
        seq![]
    } else {
        let rest = spec_village_trees(w, rolls, k - 1);
        let (x, y) = spec_tree_cell(w, k - 1);
        if rolls[k - 1] < 35 {
            rest.push(EntityPlan::Tree { x: x as i32, y: y as i32 })
        } else {
            rest
        }
    }
}

/// The trees that the rolls plant on a `w` x `h` map: one roll per cell
/// of the upper half, row by row, and a tree wherever it is below 35.
pub fn village_trees(w: i32, h: i32, rolls: &Vec<i32>) -> (r: Vec<EntityPlan>)
    requires
        2 < w,
        2 <= h,
        rolls@.len() == spec_tree_cell_count(w as int, h as int),
    ensures
        r@ == spec_village_trees(w as int, rolls@, rolls@.len() as int),
        forall|i: int|
            0 <= i < r@.len() ==> (#[trigger] r@[i] is Tree && 1 <= r@[i]->Tree_x < w - 1 && 1
                <= r@[i]->Tree_y < h / 2),
{
    let mut r: Vec<EntityPlan> = Vec::new();
    let mut y: i32 = 1;
    let ghost ww: int = w - 2;
    while y < h / 2
        invariant
            2 < w,
            2 <= h,
            ww == w - 2,
            1 <= y <= h / 2 || y == 1,
            rolls@.len() == ww * (h / 2 - 1),
            r@ == spec_village_trees(w as int, rolls@, (y - 1) * ww),
            forall|i: int|
                0 <= i < r@.len() ==> (#[trigger] r@[i] is Tree && 1 <= r@[i]->Tree_x < w - 1 && 1
                    <= r@[i]->Tree_y < h / 2),
        decreases h / 2 - y,
    {
        let mut x: i32 = 1;
        while x < w - 1
            invariant
                2 < w,
                2 <= h,
                ww == w - 2,
                1 <= y < h / 2,
                1 <= x <= w - 1,
                rolls@.len() == ww * (h / 2 - 1),
                r@ == spec_village_trees(w as int, rolls@, (y - 1) * ww + (x - 1)),
                forall|i: int|
                    0 <= i < r@.len() ==> (#[trigger] r@[i] is Tree && 1 <= r@[i]->Tree_x < w - 1 && 1
                        <= r@[i]->Tree_y < h / 2),
            decreases w - 1 - x,
        {
            let ghost k: int = (y - 1) * ww + (x - 1);
            proof {
                assert(0 <= k < rolls@.len()) by (nonlinear_arith)
                    requires
                        k == (y - 1) * ww + (x - 1),
                        1 <= y < h / 2,
                        1 <= x < w - 1,
                        ww == w - 2,
                        rolls@.len() == ww * (h / 2 - 1),
                ;
                vstd::arithmetic::div_mod::lemma_fundamental_div_mod_converse_div(k, ww, y - 1, x - 1);
                vstd::arithmetic::div_mod::lemma_fundamental_div_mod_converse_mod(k, ww, y - 1, x - 1);
                assert(spec_tree_cell(w as int, k) == (x as int, y as int));
            }
            assert((y - 1) * ww <= k) by (nonlinear_arith)
                requires
                    k == (y - 1) * ww + (x - 1),
                    1 <= x,
            ;
            let row: usize = (y - 1) as usize;
            let cols: usize = (w - 2) as usize;
            let len: usize = rolls.len();
            assert(row * cols == (y - 1) * ww);
            let idx: usize = row * cols + (x - 1) as usize;
            if rolls[idx] < 35 {
                r.push(EntityPlan::Tree { x, y });
            }
            x = x + 1;
        }
        assert((y - 1) * ww + (w - 1 - 1) == y * ww) by (nonlinear_arith)
            requires
                ww == w - 2,
        ;
        y = y + 1;
    }
    proof {
        if h / 2 <= 1 {
            assert(rolls@.len() == 0) by (nonlinear_arith)
                requires
                    rolls@.len() == ww * (h / 2 - 1),
                    h / 2 <= 1,
                    ww > 0,
                    rolls@.len() >= 0,
            ;
        } else {
            assert((y - 1) * ww == ww * (h / 2 - 1)) by (nonlinear_arith)
                requires
                    y == h / 2,
            ;
        }
    }
    r
}

/// The village's buildings and people, on a map `h` rows high.
pub open spec fn spec_village_buildings(h: int) -> Seq<EntityPlan> {
    Seq::new(10, |i: int| EntityPlan::PlankHouse { x: (10 * (i + 1)) as i32, y: (h - 14) as i32, width: 4, height: 4 })
        + seq![
        EntityPlan::ChiefHouse { x: 40, y: (h - 27) as i32, width: 20, height: 8 },
        EntityPlan::LumberMill { x: 20, y: (h - 27) as i32, width: 8, height: 8 },
        EntityPlan::FishCleaner { x: 115, y: (h - 17) as i32, width: 5, height: 5 },
    ] + Seq::new(20, |i: int| EntityPlan::Villager { x: 15, y: (h - 25 - i) as i32 })
}

fn village_buildings(h: i32) -> (r: Vec<EntityPlan>)
    requires
        h == MAPHEIGHT,
    ensures
        r@ == spec_village_buildings(h as int),
        r@.len() == 33,
{
    let mut r: Vec<EntityPlan> = Vec::new();
    let mut i: i32 = 1;
    while i <= 10
        invariant
            h == MAPHEIGHT,
            1 <= i <= 11,
            r@ == Seq::new((i - 1) as nat, |k: int| EntityPlan::PlankHouse { x: (10 * (k + 1)) as i32, y: (h - 14) as i32, width: 4, height: 4 }),
        decreases 11 - i,
    {
        r.push(EntityPlan::PlankHouse { x: 10 * i, y: h - 14, width: 4, height: 4 });
        assert(r@ =~= Seq::new(i as nat, |k: int| EntityPlan::PlankHouse { x: (10 * (k + 1)) as i32, y: (h - 14) as i32, width: 4, height: 4 }));
        i = i + 1;
    }
    r.push(EntityPlan::ChiefHouse { x: 40, y: h - 27, width: 20, height: 8 });
    r.push(EntityPlan::LumberMill { x: 20, y: h - 27, width: 8, height: 8 });
    r.push(EntityPlan::FishCleaner { x: 115, y: h - 17, width: 5, height: 5 });
    let ghost head = r@;
    let mut j: i32 = 0;
    while j < 20
        invariant
            h == MAPHEIGHT,
            0 <= j <= 20,
            r@ == head + Seq::new(j as nat, |k: int| EntityPlan::Villager { x: 15, y: (h - 25 - k) as i32 }),
        decreases 20 - j,
    {
        r.push(EntityPlan::Villager { x: 15, y: h - 25 - j });
        assert(r@ =~= head + Seq::new((j + 1) as nat, |k: int| EntityPlan::Villager { x: 15, y: (h - 25 - k) as i32 }));
        j = j + 1;
    }
    assert(r@ =~= spec_village_buildings(h as int));
    r
}

/// The tile of cell `(x, y)` of the arena on a `w` x `h` map: a wall
/// border around open floor.
pub open spec fn spec_arena_tile(w: int, h: int, x: int, y: int) -> TileType {
    if x == 0 || x == w - 1 || y == 0 || y == h - 1 {
        TileType::Wall
    } else {
        TileType::Floor
    }
}

/// Builds the arena: an open floor where two factions fight.
pub struct AernaBuilder {
    pub map: TileMap,
    pub starting_position: Point,
    pub depth: i32,
    pub history: Vec<TileMap>,
}

impl AernaBuilder {
    /// A builder for a level at `new_depth`, starting from open floor.
    pub fn new(new_depth: i32) -> (b: AernaBuilder)
        ensures
            b.map.wf(),
            b.map.width == MAPWIDTH,
            b.map.height == MAPHEIGHT,
            forall|i: int| 0 <= i < b.map.size() ==> b.map.tiles@[i] == TileType::Floor,
            b.depth == new_depth,
            b.history@.len() == 0,
    {
        AernaBuilder {
            map: TileMap::new(new_depth, TileType::Floor, (MAPWIDTH, MAPHEIGHT)),
            starting_position: Point { x: 0, y: 0 },
            depth: new_depth,
            history: Vec::new(),
        }
    }

    /// Walls the map's border in and puts the player at the centre.
    pub fn build_map(&mut self)
        requires
            old(self).map.wf(),
            forall|i: int| 0 <= i < old(self).map.size() ==> old(self).map.tiles@[i] == TileType::Floor,
        ensures
            final(self).map.wf(),
            final(self).map.width == old(self).map.width,
            final(self).map.height == old(self).map.height,
            forall|x: int, y: int|
                0 <= x < final(self).map.width && 0 <= y < final(self).map.height ==> #[trigger] final(self).map.tiles@[final(self).map.spec_xy_idx(x, y)]
                    == spec_arena_tile(final(self).map.width as int, final(self).map.height as int, x, y),
            final(self).starting_position == (Point {
                x: (old(self).map.width / 2) as i32,
                y: (old(self).map.height / 2) as i32,
            }),
            final(self).history@.len() == old(self).history@.len() + 1,
    {
        let w = self.map.width;
        let h = self.map.height;
        assert forall|xx: int, yy: int| 0 <= xx < w && 0 <= yy < h implies #[trigger] self.map.tiles@[spec_xy_idx(w as int, xx, yy)]
            == TileType::Floor by {
            crate::map::lemma_xy_idx_in_range(w as int, h as int, xx, yy);
        }
        let mut x: i32 = 0;
        while x < w
            invariant
                self.map.wf(),
                self.map.width == w && self.map.height == h,
                self.history@.len() == old(self).history@.len(),
                0 <= x <= w,
                forall|xx: int, yy: int|
                    0 <= xx < w && 0 <= yy < h ==> #[trigger] self.map.tiles@[spec_xy_idx(w as int, xx, yy)]
                        == if (xx < x && (yy == 0 || yy == h - 1)) {
                        TileType::Wall
                    } else {
                        TileType::Floor
                    },
            decreases w - x,
        {
            let ghost before = self.map.tiles@;
            let idx = self.map.xy_idx(x, 0);
            self.map.tiles.set(idx, TileType::Wall);
            let idx2 = self.map.xy_idx(x, h - 1);
            self.map.tiles.set(idx2, TileType::Wall);
            proof {
                assert forall|xx: int, yy: int| 0 <= xx < w && 0 <= yy < h implies #[trigger] self.map.tiles@[spec_xy_idx(w as int, xx, yy)]
                    == if (xx < x + 1 && (yy == 0 || yy == h - 1)) {
                    TileType::Wall
                } else {
                    TileType::Floor
                } by {
                    crate::map::lemma_xy_idx_in_range(w as int, h as int, xx, yy);
                    crate::map::lemma_xy_idx_roundtrip(self.map, xx, yy);
                    crate::map::lemma_xy_idx_roundtrip(self.map, x as int, 0);
                    crate::map::lemma_xy_idx_roundtrip(self.map, x as int, h - 1);
                    assert(before[spec_xy_idx(w as int, xx, yy)] == (if (xx < x && (yy == 0 || yy == h - 1)) {
                        TileType::Wall
                    } else {
                        TileType::Floor
                    }));
                }
            }
            x = x + 1;
        }
        let mut y: i32 = 0;
        while y < h
            invariant
                self.map.wf(),
                self.map.width == w && self.map.height == h,
                self.history@.len() == old(self).history@.len(),
                0 <= y <= h,
                forall|xx: int, yy: int|
                    0 <= xx < w && 0 <= yy < h ==> #[trigger] self.map.tiles@[spec_xy_idx(w as int, xx, yy)]
                        == if (yy == 0 || yy == h - 1 || (yy < y && (xx == 0 || xx == w - 1))) {
                        TileType::Wall
                    } else {
                        TileType::Floor
                    },
            decreases h - y,
        {
            let ghost before = self.map.tiles@;
            let idx = self.map.xy_idx(0, y);
            self.map.tiles.set(idx, TileType::Wall);
            let idx2 = self.map.xy_idx(w - 1, y);
            self.map.tiles.set(idx2, TileType::Wall);
            proof {
                assert forall|xx: int, yy: int| 0 <= xx < w && 0 <= yy < h implies #[trigger] self.map.tiles@[spec_xy_idx(w as int, xx, yy)]
                    == if (yy == 0 || yy == h - 1 || (yy < y + 1 && (xx == 0 || xx == w - 1))) {
                    TileType::Wall
                } else {
                    TileType::Floor
                } by {
                    crate::map::lemma_xy_idx_in_range(w as int, h as int, xx, yy);
                    crate::map::lemma_xy_idx_roundtrip(self.map, xx, yy);
                    crate::map::lemma_xy_idx_roundtrip(self.map, 0, y as int);
                    crate::map::lemma_xy_idx_roundtrip(self.map, w - 1, y as int);
                    assert(before[spec_xy_idx(w as int, xx, yy)] == (if (yy == 0 || yy == h - 1 || (yy < y && (xx == 0 || xx == w - 1))) {
                        TileType::Wall
                    } else {
                        TileType::Floor
                    }));
                }
            }
            y = y + 1;
        }
        self.take_snapshot();
        self.starting_position = Point { x: w / 2, y: h / 2 };
    }

    /// Keeps a copy of the map as it is now.
    pub fn take_snapshot(&mut self)
        ensures
            final(self).map == old(self).map,
            final(self).starting_position == old(self).starting_position,
            final(self).depth == old(self).depth,
            final(self).history@.len() == old(self).history@.len() + 1,
            final(self).history@.last().tiles@ == old(self).map.tiles@,
    {
        if SHOW_MAPGEN_ANIMATION {
            let m = self.map.duplicate();
            self.history.push(m);
        }
    }

    /// The arena's two orc spawners, one per faction, on the left and
    /// right of the middle row, each spawning every ten turns.
    pub fn spawn_entities(&self) -> (r: Vec<EntityPlan>)
        requires
            self.map.wf(),
            self.map.width >= 5,
        ensures
            r@ == seq![
                EntityPlan::Spawner { x: 4, y: (self.map.height / 2) as i32, faction: 0, typ: SpawnerType::Orc, rate: 10 },
                EntityPlan::Spawner { x: (self.map.width - 5) as i32, y: (self.map.height / 2) as i32, faction: 1, typ: SpawnerType::Orc, rate: 10 },
            ],
    {
        let r = vec![
            EntityPlan::Spawner { x: 4, y: self.map.height / 2, faction: 0, typ: SpawnerType::Orc, rate: 10 },
            EntityPlan::Spawner { x: self.map.width - 5, y: self.map.height / 2, faction: 1, typ: SpawnerType::Orc, rate: 10 },
        ];
        assert(r@ =~= seq![
            EntityPlan::Spawner { x: 4, y: (self.map.height / 2) as i32, faction: 0, typ: SpawnerType::Orc, rate: 10 },
            EntityPlan::Spawner { x: (self.map.width - 5) as i32, y: (self.map.height / 2) as i32, faction: 1, typ: SpawnerType::Orc, rate: 10 },
        ]);
        r
    }
}

} // verus!
