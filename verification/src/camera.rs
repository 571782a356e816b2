use vstd::prelude::*;
use crate::components::Viewshed;
use crate::engine::GameMode;
use crate::geometry::Point;
use crate::indexing::SpatialKnowledge;
use crate::map::{TileMap, TileType};

verus! {

/// The colours of the palette that tiles are drawn in.
#[derive(Clone, Copy, PartialEq, Eq, Structural, Debug)]
pub enum TileColor {
    MainBg,
    MainFg,
    GreenDark,
    Green,
    Amber,
    Dirt,
    Water,
    /// The water colour at seven tenths of its brightness.
    WaterShade,
    Wood,
    Fire,
}

/// How a map cell is drawn: its character and its colours.
#[derive(Clone, Copy, PartialEq, Eq, Structural, Debug)]
pub struct TileLook {
    pub glyph: char,
    pub fg: TileColor,
    pub bg: TileColor,
}

/// How a tile of kind `t` is drawn, not burning.
pub open spec fn spec_plain_look(t: TileType) -> TileLook {
    match t {
        TileType::Floor => TileLook { glyph: '·', fg: TileColor::GreenDark, bg: TileColor::MainBg },
        TileType::Wall => TileLook { glyph: '#', fg: TileColor::MainFg, bg: TileColor::MainBg },
        TileType::StairsDown => TileLook { glyph: '>', fg: TileColor::MainFg, bg: TileColor::MainBg },
        TileType::StairsUp => TileLook { glyph: '<', fg: TileColor::MainFg, bg: TileColor::MainBg },
        TileType::Grass => TileLook { glyph: ' ', fg: TileColor::Green, bg: TileColor::GreenDark },
        TileType::Wheat => TileLook { glyph: '{', fg: TileColor::Amber, bg: TileColor::MainBg },
        TileType::Dirt => TileLook { glyph: '.', fg: TileColor::Dirt, bg: TileColor::MainBg },
        TileType::Water => TileLook { glyph: '~', fg: TileColor::Water, bg: TileColor::WaterShade },
        TileType::WoodWall => TileLook { glyph: '#', fg: TileColor::Wood, bg: TileColor::MainBg },
        TileType::WoodDoor => TileLook { glyph: '+', fg: TileColor::Wood, bg: TileColor::MainBg },
        TileType::WoodFloor => TileLook { glyph: '.', fg: TileColor::Wood, bg: TileColor::MainBg },
    }
}

/// How a tile of kind `t` is drawn: a burning cell shows flames on a fire
/// background over the tile's own colour.
pub open spec fn spec_tile_look(t: TileType, burning: bool) -> TileLook {
    if burning {
        TileLook { glyph: '^', fg: spec_plain_look(t).fg, bg: TileColor::Fire }
    } else {
        spec_plain_look(t)
    }
}

/// How the cell at `idx` is drawn.
pub fn get_tile_glyph(map: &TileMap, idx: usize) -> (l: TileLook)
    requires
        map.wf(),
        idx < map.size(),
    ensures
        l == spec_tile_look(map.tiles@[idx as int], map.fire_turns@[idx as int] > 0),
{
    let plain = match map.tiles[idx] {
        TileType::Floor => TileLook { glyph: '·', fg: TileColor::GreenDark, bg: TileColor::MainBg },
        TileType::Wall => TileLook { glyph: '#', fg: TileColor::MainFg, bg: TileColor::MainBg },
        TileType::StairsDown => TileLook { glyph: '>', fg: TileColor::MainFg, bg: TileColor::MainBg },
        TileType::StairsUp => TileLook { glyph: '<', fg: TileColor::MainFg, bg: TileColor::MainBg },
        TileType::Grass => TileLook { glyph: ' ', fg: TileColor::Green, bg: TileColor::GreenDark },
        TileType::Wheat => TileLook { glyph: '{', fg: TileColor::Amber, bg: TileColor::MainBg },
        TileType::Dirt => TileLook { glyph: '.', fg: TileColor::Dirt, bg: TileColor::MainBg },
        TileType::Water => TileLook { glyph: '~', fg: TileColor::Water, bg: TileColor::WaterShade },
        TileType::WoodWall => TileLook { glyph: '#', fg: TileColor::Wood, bg: TileColor::MainBg },
        TileType::WoodDoor => TileLook { glyph: '+', fg: TileColor::Wood, bg: TileColor::MainBg },
        TileType::WoodFloor => TileLook { glyph: '.', fg: TileColor::Wood, bg: TileColor::MainBg },
    };
    if map.fire_turns[idx] > 0 {
        TileLook { glyph: '^', fg: plain.fg, bg: TileColor::Fire }
    } else {
        plain
    }
}

/// What the camera shows at a map position.
#[derive(Clone, Copy, PartialEq, Eq, Structural, Debug)]
pub enum CellView {
    /// Off the map: the boundary dot.
    Boundary,
    /// On the map, but never seen: nothing.
    Unseen,
    /// The cell at `idx`, dimmed to half brightness when out of sight.
    Tile { idx: usize, dim: bool },
}

/// What the camera shows at `(tx, ty)`: the simulation shows every cell
/// in full; otherwise only the cells the player remembers, dimmed when
/// the player does not see them now.
pub open spec fn spec_camera_cell(
    map: &TileMap,
    mode: GameMode,
    known: Set<usize>,
    visible: Seq<Point>,
    tx: i32,
    ty: i32,
) -> CellView {
    if !map.spec_in_bounds(tx as int, ty as int) {
        CellView::Boundary
    } else {
        let idx = map.spec_xy_idx(tx as int, ty as int) as usize;
        if mode == GameMode::Sim {
            CellView::Tile { idx, dim: false }
        } else if known.contains(idx) {
            CellView::Tile { idx, dim: !visible.contains(Point { x: tx, y: ty }) }
        } else {
            CellView::Unseen
        }
    }
}

/// What the camera shows at map position `(tx, ty)`, for a player who
/// remembers `knowledge` and sees `vs`.
pub fn camera_cell(
    map: &TileMap,
    mode: GameMode,
    knowledge: &SpatialKnowledge,
    vs: &Viewshed,
    tx: i32,
    ty: i32,
) -> (c: CellView)
    requires
        map.wf(),
    ensures
        c == spec_camera_cell(map, mode, knowledge.tiles@.dom(), vs.visible_tiles@, tx, ty),
{
    if !map.in_bounds(tx, ty) {
        return CellView::Boundary;
    }
    let idx = map.xy_idx(tx, ty);
    if mode == GameMode::Sim {
        CellView::Tile { idx, dim: false }
    } else if knowledge.tiles.contains_key(&idx) {
        CellView::Tile { idx, dim: !vs.is_visible(Point { x: tx, y: ty }) }
    } else {
        CellView::Unseen
    }
}

/// Where, on a screen of `size` characters with the map drawn from
/// `(xoff, yoff)` on and from map position `(min_x, min_y)` on, the camera
/// draws an entity's cell `p`; nothing for the player in the simulation,
/// for cells left of or above the view or out of the player's sight (but
/// in the simulation), or off the screen.
pub open spec fn spec_entity_screen_cell(
    mode: GameMode,
    is_player: bool,
    visible: Seq<Point>,
    p: Point,
    min_x: int,
    min_y: int,
    xoff: int,
    yoff: int,
    size: (u32, u32),
) -> Option<(int, int)> {
    let sx = xoff + p.x - min_x;
    let sy = yoff + p.y - min_y;
    if is_player && mode == GameMode::Sim {
        None
    } else if p.y > min_y - 1 && p.x > min_x - 1 && (mode == GameMode::Sim || visible.contains(p)) && sx
        > -1 && sx < size.0 && sy > 0 && sy < size.1 {
        Some((sx, sy))
    } else {
        None
    }
}

/// Where the camera draws an entity standing on cell `p`, if anywhere.
pub fn entity_screen_cell(
    mode: GameMode,
    is_player: bool,
    vs: &Viewshed,
    p: Point,
    min_x: i32,
    min_y: i32,
    xoff: i32,
    yoff: i32,
    size: (u32, u32),
) -> (r: Option<(i32, i32)>)
    requires
        i32::MIN < min_x,
        i32::MIN < min_y,
        i32::MIN <= xoff + p.x <= i32::MAX,
        i32::MIN <= yoff + p.y <= i32::MAX,
        i32::MIN <= xoff + p.x - min_x <= i32::MAX,
        i32::MIN <= yoff + p.y - min_y <= i32::MAX,
    ensures
        r == (match spec_entity_screen_cell(
            mode,
            is_player,
            vs.visible_tiles@,
            p,
            min_x as int,
            min_y as int,
            xoff as int,
            yoff as int,
            size,
        ) {
            Some((x, y)) => Some((x as i32, y as i32)),
            None => None,
        }),
{
    if is_player && mode == GameMode::Sim {
        return None;
    }
    if p.y > min_y - 1 && p.x > min_x - 1 && (mode == GameMode::Sim || vs.is_visible(p)) {
        let sx = xoff + p.x - min_x;
        let sy = yoff + p.y - min_y;
        if sx > -1 && (sx as i64) < (size.0 as i64) && sy > 0 && (sy as i64) < (size.1 as i64) {
            return Some((sx, sy));
        }
    }
    None
}

/// Outside the simulation the camera shows nothing of cells that the
/// player does not remember: two maps of one size that agree on every
/// remembered cell give the same view of every position, and the same
/// look of every cell shown.
pub proof fn lemma_unknown_cells_hidden(
    m1: &TileMap,
    m2: &TileMap,
    mode: GameMode,
    known: Set<usize>,
    visible: Seq<Point>,
    tx: i32,
    ty: i32,
)
    requires
        mode != GameMode::Sim,
        m1.wf(),
        m2.wf(),
        m1.width == m2.width,
        m1.height == m2.height,
        forall|i: int|
            0 <= i < m1.size() && known.contains(i as usize) ==> #[trigger] m1.tiles@[i] == m2.tiles@[i]
                && m1.fire_turns@[i] == m2.fire_turns@[i],
    ensures
        spec_camera_cell(m1, mode, known, visible, tx, ty) == spec_camera_cell(m2, mode, known, visible, tx, ty),
        match spec_camera_cell(m1, mode, known, visible, tx, ty) {
            CellView::Tile { idx, dim } => spec_tile_look(m1.tiles@[idx as int], m1.fire_turns@[idx as int] > 0)
                == spec_tile_look(m2.tiles@[idx as int], m2.fire_turns@[idx as int] > 0),
            _ => true,
        },
{
    if m1.spec_in_bounds(tx as int, ty as int) {
        crate::map::lemma_xy_idx_in_range(m1.width as int, m1.height as int, tx as int, ty as int);
        let idx = m1.spec_xy_idx(tx as int, ty as int);
        if known.contains(idx as usize) {
            assert(m1.tiles@[idx] == m2.tiles@[idx]);
        }
    }
}

/// Outside the simulation an entity on a cell that the player does not
/// see is not drawn.
pub proof fn lemma_unseen_entities_hidden(
    mode: GameMode,
    is_player: bool,
    visible: Seq<Point>,
    p: Point,
    min_x: int,
    min_y: int,
    xoff: int,
    yoff: int,
    size: (u32, u32),
)
    requires
        mode != GameMode::Sim,
        !visible.contains(p),
    ensures
        spec_entity_screen_cell(mode, is_player, visible, p, min_x, min_y, xoff, yoff, size) is None,
{
}

} // verus!
