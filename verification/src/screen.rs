use vstd::prelude::*;
use crate::geometry::Point;

verus! {

/// Columns at the left of the screen taken by the side panel.
pub const OFFSET_X: u32 = 31;
/// Rows at the top of the screen taken by the log panel.
pub const OFFSET_Y: u32 = 11;
/// The full map's width in cells.
pub const MAPWIDTH: i32 = 200;
/// The full map's height in cells.
pub const MAPHEIGHT: i32 = 80;

/// The map window of a screen of `chars` characters centred on `focus`,
/// as (min x, max x, min y, max y). Along each axis the window reaches
/// half the screen's map area to each side of the focus; near the map's
/// top or left edge it starts at 0 instead, and where it would reach the
/// map's right or bottom edge it ends on the last column or row.
pub open spec fn spec_map_window(focus: Point, chars: (u32, u32)) -> (int, int, int, int) {
    let cx = ((chars.0 - OFFSET_X) / 2) as int;
    let cy = ((chars.1 - OFFSET_Y) / 2) as int;
    let (min_x, max_x) = spec_axis_window(focus.x as int, cx, MAPWIDTH as int);
    let (min_y, max_y) = spec_axis_window(focus.y as int, cy, MAPHEIGHT as int);
    (min_x, max_x, min_y, max_y)
}

/// The window along one axis of length `len`, reaching `c` cells to each
/// side of `f`.
pub open spec fn spec_axis_window(f: int, c: int, len: int) -> (int, int) {
    if f < c {
        (0, 2 * c)
    } else if f + c >= len {
        (len - 2 * c, len - 1)
    } else {
        (f - c, f + c)
    }
}

/// The part of the map shown on a screen of `char_size` characters when
/// the view follows `focus`.
pub fn get_map_coords_for_screen(focus: Point, char_size: (u32, u32)) -> (r: (i32, i32, i32, i32))
    requires
        OFFSET_X <= char_size.0 <= 0x100_0000,
        OFFSET_Y <= char_size.1 <= 0x100_0000,
        -0x1000_0000 <= focus.x <= 0x1000_0000,
        -0x1000_0000 <= focus.y <= 0x1000_0000,
    ensures
        (r.0 as int, r.1 as int, r.2 as int, r.3 as int) == spec_map_window(focus, char_size),
{
    let x_chars = char_size.0 - OFFSET_X;
    let y_chars = char_size.1 - OFFSET_Y;
    let center_x = (x_chars / 2) as i32;
    let center_y = (y_chars / 2) as i32;

    let mut min_x = focus.x - center_x;
    let mut max_x = focus.x + center_x;
    let mut min_y = focus.y - center_y;
    let mut max_y = focus.y + center_y;

    let w = MAPWIDTH;
    let h = MAPHEIGHT;

    if min_x < 0 {
        max_x = max_x - min_x;
        min_x = 0;
    } else if max_x >= w {
        min_x = min_x - (max_x - w);
        max_x = w - 1;
    }
    if min_y < 0 {
        max_y = max_y + (0 - min_y);
        min_y = 0;
    } else if max_y >= h {
        min_y = min_y - (max_y - h);
        max_y = h - 1;
    }
    (min_x, max_x, min_y, max_y)
}

/// The view never scrolls past the map's edges: when the screen's map
/// area is narrower and lower than the map and the focus is on the map,
/// the window lies on the map and holds the focus.
pub proof fn lemma_window_starts_on_map(focus: Point, chars: (u32, u32))
    requires
        OFFSET_X <= chars.0,
        OFFSET_Y <= chars.1,
        2 * ((chars.0 - OFFSET_X) / 2) < MAPWIDTH,
        2 * ((chars.1 - OFFSET_Y) / 2) < MAPHEIGHT,
        0 <= focus.x < MAPWIDTH,
        0 <= focus.y < MAPHEIGHT,
    ensures
        0 <= spec_map_window(focus, chars).0 <= focus.x <= spec_map_window(focus, chars).1 < MAPWIDTH,
        0 <= spec_map_window(focus, chars).2 <= focus.y <= spec_map_window(focus, chars).3 < MAPHEIGHT,
{
}

/// Something that can draw itself.
pub trait Draw {
    fn draw(&self);
}

/// A screen of components drawn in order.
pub struct Screen<T: Draw> {
    pub components: Vec<T>,
}

impl<T: Draw> Screen<T> {
    /// Draws every component, first to last.
    pub fn run(&self) {
        let mut i: usize = 0;
        while i < self.components.len()
            invariant
                i <= self.components@.len(),
            decreases self.components.len() - i,
        {
            self.components[i].draw();
            i = i + 1;
        }
    }
}

/// A function kept in a struct.
pub struct Foo<F: Fn(usize) -> usize> {
    pub foo: F,
}

impl<F: Fn(usize) -> usize> Foo<F> {
    /// Keeps `foo`.
    pub fn new(foo: F) -> (r: Self)
        ensures
            r.foo == foo,
    {
        Self { foo }
    }
}

} // verus!
