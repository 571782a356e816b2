use vstd::prelude::*;
use crate::geometry::Point;

verus! {

/// What a map cell is made of.
#[derive(Clone, Copy, PartialEq, Eq, Structural, Debug)]
pub enum TileType {
    Wall,
    Floor,
    StairsDown,
    StairsUp,
    Grass,
    Wheat,
    Dirt,
    Water,
    WoodWall,
    WoodDoor,
    WoodFloor,
}

/// Whether a tile of kind `t` catches fire: grass, wheat and the wooden
/// parts of buildings burn; a burnt-out tile turns to dirt.
pub open spec fn spec_flammable(t: TileType) -> bool {
    t == TileType::Grass || t == TileType::Wheat || t == TileType::WoodWall || t == TileType::WoodDoor
        || t == TileType::WoodFloor
}

impl TileType {
    /// Whether this tile catches fire.
    pub fn is_flammable(&self) -> (r: bool)
        ensures
            r == spec_flammable(*self),
    {
        match self {
            TileType::Grass | TileType::Wheat | TileType::WoodWall | TileType::WoodDoor
            | TileType::WoodFloor => true,
            _ => false,
        }
    }
}

/// Whether a tile of kind `t` stops walkers by itself: walls, and water.
pub open spec fn spec_tile_blocks(t: TileType) -> bool {
    t == TileType::Wall || t == TileType::WoodWall || t == TileType::Water
}

/// An entity of the game, by its number in the entity store.
pub type EntityId = u64;

/// The level grid. Cells are stored row by row: cell `(x, y)` has index
/// `y * width + x`. Each cell has a tile, a "blocked" flag, the entities
/// standing on it and the number of turns it keeps burning.
pub struct TileMap {
    pub width: i32,
    pub height: i32,
    pub depth: i32,
    pub tiles: Vec<TileType>,
    pub blocked: Vec<bool>,
    pub tile_content: Vec<Vec<EntityId>>,
    pub fire_turns: Vec<i32>,
}

/// The index of cell `(x, y)` on a grid `width` cells wide.
pub open spec fn spec_xy_idx(width: int, x: int, y: int) -> int {
    y * width + x
}

/// Whether `(x, y)` lies on a `width` x `height` grid.
pub open spec fn spec_in_bounds(width: int, height: int, x: int, y: int) -> bool {
    0 <= x < width && 0 <= y < height
}

impl TileMap {
    /// The number of cells.
    pub open spec fn size(&self) -> int {
        self.width * self.height
    }

    /// The grid's dimensions are positive, every index fits an `i32`, and
    /// every per-cell vector has one entry per cell.
    pub open spec fn wf(&self) -> bool {
        &&& self.width > 0
        &&& self.height > 0
        &&& self.width * self.height <= i32::MAX
        &&& self.tiles.len() == self.size()
        &&& self.blocked.len() == self.size()
        &&& self.tile_content.len() == self.size()
        &&& self.fire_turns.len() == self.size()
    }

    pub open spec fn spec_in_bounds(&self, x: int, y: int) -> bool {
        spec_in_bounds(self.width as int, self.height as int, x, y)
    }

    pub open spec fn point_in_bounds(&self, p: Point) -> bool {
        self.spec_in_bounds(p.x as int, p.y as int)
    }

    pub open spec fn spec_xy_idx(&self, x: int, y: int) -> int {
        spec_xy_idx(self.width as int, x, y)
    }

    pub open spec fn spec_point_idx(&self, p: Point) -> int {
        self.spec_xy_idx(p.x as int, p.y as int)
    }

    /// The point of cell index `idx`.
    pub open spec fn spec_idx_point(&self, idx: int) -> Point {
        Point { x: (idx % (self.width as int)) as i32, y: (idx / (self.width as int)) as i32 }
    }

    /// A map of `size.0` x `size.1` cells, all of tile `tile`, unblocked,
    /// empty and not burning.
    pub fn new(depth: i32, tile: TileType, size: (i32, i32)) -> (m: TileMap)
        requires
            size.0 > 0,
            size.1 > 0,
            size.0 * size.1 <= i32::MAX,
        ensures
            m.wf(),
            m.width == size.0,
            m.height == size.1,
            m.depth == depth,
            forall|i: int| 0 <= i < m.size() ==> m.tiles@[i] == tile,
            forall|i: int| 0 <= i < m.size() ==> !m.blocked@[i],
            forall|i: int| 0 <= i < m.size() ==> m.tile_content@[i]@.len() == 0,
            forall|i: int| 0 <= i < m.size() ==> m.fire_turns@[i] == 0,
    {
        let n: usize = (size.0 * size.1) as usize;
        let mut tiles: Vec<TileType> = Vec::new();
        let mut blocked: Vec<bool> = Vec::new();
        let mut tile_content: Vec<Vec<EntityId>> = Vec::new();
        let mut fire_turns: Vec<i32> = Vec::new();
        let mut i: usize = 0;
        while i < n
            invariant
                i <= n,
                tiles.len() == i,
                blocked.len() == i,
                tile_content.len() == i,
                fire_turns.len() == i,
                forall|j: int| 0 <= j < i ==> tiles@[j] == tile,
                forall|j: int| 0 <= j < i ==> !blocked@[j],
                forall|j: int| 0 <= j < i ==> tile_content@[j]@.len() == 0,
                forall|j: int| 0 <= j < i ==> fire_turns@[j] == 0,
            decreases n - i,
        {
            tiles.push(tile);
            blocked.push(false);
            tile_content.push(Vec::new());
            fire_turns.push(0);
            i = i + 1;
        }
        TileMap { width: size.0, height: size.1, depth, tiles, blocked, tile_content, fire_turns }
    }

    /// Whether `(x, y)` lies on the map.
    pub fn in_bounds(&self, x: i32, y: i32) -> (r: bool)
        ensures
            r == self.spec_in_bounds(x as int, y as int),
    {
        0 <= x && x < self.width && 0 <= y && y < self.height
    }

    /// Whether the cell at `idx` stops walkers: it is marked blocked.
    pub fn blocks_movement(&self, idx: usize) -> (r: bool)
        requires
            self.wf(),
            idx < self.size(),
        ensures
            r == self.blocked@[idx as int],
    {
        self.blocked[idx]
    }

    /// Whether the cell at `idx` catches fire.
    pub fn is_flammable(&self, idx: usize) -> (r: bool)
        requires
            self.wf(),
            idx < self.size(),
        ensures
            r == spec_flammable(self.tiles@[idx as int]),
    {
        self.tiles[idx].is_flammable()
    }

    /// Resets the blocked flags to what the tiles alone say: a cell is
    /// blocked exactly when its tile stops walkers.
    pub fn set_blocked(&mut self)
        requires
            old(self).wf(),
        ensures
            final(self).wf(),
            final(self).width == old(self).width,
            final(self).height == old(self).height,
            final(self).depth == old(self).depth,
            final(self).tiles@ == old(self).tiles@,
            final(self).tile_content@ == old(self).tile_content@,
            final(self).fire_turns@ == old(self).fire_turns@,
            forall|i: int| 0 <= i < final(self).size() ==> #[trigger] final(self).blocked@[i] == spec_tile_blocks(
                final(self).tiles@[i],
            ),
    {
        let n = self.blocked.len();
        let mut i: usize = 0;
        while i < n
            invariant
                n == self.size(),
                i <= n,
                self.wf(),
                self.width == old(self).width,
                self.height == old(self).height,
                self.depth == old(self).depth,
                self.tiles@ == old(self).tiles@,
                self.tile_content@ == old(self).tile_content@,
                self.fire_turns@ == old(self).fire_turns@,
                forall|k: int| 0 <= k < i ==> #[trigger] self.blocked@[k] == spec_tile_blocks(self.tiles@[k]),
            decreases n - i,
        {
            let t = self.tiles[i];
            let b = t == TileType::Wall || t == TileType::WoodWall || t == TileType::Water;
            self.blocked.set(i, b);
            i = i + 1;
        }
    }

    /// The index of cell `(x, y)`.
    pub fn xy_idx(&self, x: i32, y: i32) -> (idx: usize)
        requires
            self.wf(),
            self.spec_in_bounds(x as int, y as int),
        ensures
            idx == self.spec_xy_idx(x as int, y as int),
            idx < self.size(),
    {
        proof {
            lemma_xy_idx_in_range(self.width as int, self.height as int, x as int, y as int);
        }
        (y * self.width + x) as usize
    }

    /// The index of the cell at `p`.
    pub fn point_idx(&self, p: Point) -> (idx: usize)
        requires
            self.wf(),
            self.point_in_bounds(p),
        ensures
            idx == self.spec_point_idx(p),
            idx < self.size(),
    {
        self.xy_idx(p.x, p.y)
    }

    /// The coordinates of cell index `idx`.
    pub fn idx_xy(&self, idx: usize) -> (r: (i32, i32))
        requires
            self.wf(),
            idx < self.size(),
        ensures
            r.0 == self.spec_idx_point(idx as int).x,
            r.1 == self.spec_idx_point(idx as int).y,
            self.point_in_bounds(Point { x: r.0, y: r.1 }),
    {
        proof {
            lemma_idx_point_in_bounds(self.width as int, self.height as int, idx as int);
        }
        let i = idx as i32;
        (i % self.width, i / self.width)
    }

    /// The point of cell index `idx`.
    pub fn idx_point(&self, idx: usize) -> (p: Point)
        requires
            self.wf(),
            idx < self.size(),
        ensures
            p == self.spec_idx_point(idx as int),
            self.point_in_bounds(p),
    {
        let (x, y) = self.idx_xy(idx);
        Point { x, y }
    }
}

/// An in-bounds cell has an index on the grid.
pub proof fn lemma_xy_idx_in_range(width: int, height: int, x: int, y: int)
    requires
        width > 0,
        height > 0,
        spec_in_bounds(width, height, x, y),
    ensures
        0 <= spec_xy_idx(width, x, y) < width * height,
{
    assert(0 <= y * width <= (height - 1) * width) by (nonlinear_arith)
        requires
            0 <= y < height,
            width > 0,
    ;
    assert((height - 1) * width + width == width * height) by (nonlinear_arith);
}

/// The point of an index on the grid lies on the grid.
pub proof fn lemma_idx_point_in_bounds(width: int, height: int, idx: int)
    requires
        width > 0,
        height > 0,
        0 <= idx < width * height,
    ensures
        spec_in_bounds(width, height, idx % width, idx / width),
{
    assert(0 <= idx % width < width) by (nonlinear_arith)
        requires
            width > 0,
    ;
    assert(0 <= idx / width < height) by (nonlinear_arith)
        requires
            width > 0,
            0 <= idx < width * height,
    ;
}

/// Going from a cell to its index and back gives the cell again.
pub proof fn lemma_xy_idx_roundtrip(m: TileMap, x: int, y: int)
    requires
        m.wf(),
        m.spec_in_bounds(x, y),
    ensures
        m.spec_idx_point(m.spec_xy_idx(x, y)) == (Point { x: x as i32, y: y as i32 }),
{
    let w = m.width as int;
    let i = y * w + x;
    assert(i % w == x && i / w == y) by (nonlinear_arith)
        requires
            w > 0,
            0 <= x < w,
            0 <= y,
            i == y * w + x,
    ;
}

/// Going from an index to its cell and back gives the index again.
pub proof fn lemma_idx_xy_roundtrip(m: TileMap, idx: int)
    requires
        m.wf(),
        0 <= idx < m.size(),
    ensures
        m.spec_point_idx(m.spec_idx_point(idx)) == idx,
{
    let w = m.width as int;
    lemma_idx_point_in_bounds(w, m.height as int, idx);
    assert((idx / w) * w + idx % w == idx) by (nonlinear_arith)
        requires
            w > 0,
    ;
}

/// Whether `e` is among `ids`.
pub(crate) fn contains_id(ids: &Vec<EntityId>, e: EntityId) -> (r: bool)
    ensures
        r == ids@.contains(e),
{
    let mut i: usize = 0;
    while i < ids.len()
        invariant
            i <= ids@.len(),
            forall|k: int| 0 <= k < i ==> ids@[k] != e,
        decreases ids.len() - i,
    {
        if ids[i] == e {
            return true;
        }
        i = i + 1;
    }
    false
}

} // verus!
