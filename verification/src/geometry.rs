use vstd::prelude::*;

verus! {

/// A cell coordinate on the map or on the screen.
#[derive(Clone, Copy, PartialEq, Eq, Structural, Debug)]
pub struct Point {
    pub x: i32,
    pub y: i32,
}

impl Point {
    pub fn new(x: i32, y: i32) -> (p: Point)
        ensures
            p.x == x,
            p.y == y,
    {
        Point { x, y }
    }

    /// The point used where no real point is known.
    pub fn invalid_point() -> (p: Point)
        ensures
            p.x == 0,
            p.y == 0,
    {
        Point { x: 0, y: 0 }
    }
}

/// The sign of a number: -1, 0 or 1.
pub open spec fn spec_sign(v: int) -> int {
    if v > 0 {
        1
    } else if v < 0 {
        -1
    } else {
        0
    }
}

/// Reduces a step to one cell in each axis, keeping its direction.
pub fn normalize(v: i32) -> (r: i32)
    ensures
        r == spec_sign(v as int),
{
    if v > 0 {
        1
    } else if v < 0 {
        -1
    } else {
        0
    }
}

/// The sum of two points, component by component.
pub fn point_plus(a: Point, b: Point) -> (r: Point)
    requires
        i32::MIN <= a.x + b.x <= i32::MAX,
        i32::MIN <= a.y + b.y <= i32::MAX,
    ensures
        r.x == a.x + b.x,
        r.y == a.y + b.y,
{
    Point { x: a.x + b.x, y: a.y + b.y }
}

/// The step that leads from `from` to `to`.
pub fn point_diff(from: Point, to: Point) -> (r: Point)
    requires
        i32::MIN <= to.x - from.x <= i32::MAX,
        i32::MIN <= to.y - from.y <= i32::MAX,
    ensures
        r.x == to.x - from.x,
        r.y == to.y - from.y,
{
    Point { x: to.x - from.x, y: to.y - from.y }
}

/// The cell offset of a numeric-keypad direction (1 = down-left, 2 = down,
/// 3 = down-right, 4 = left, 6 = right, 7 = up-left, 8 = up, 9 = up-right),
/// where y grows downwards.
pub open spec fn spec_dir_delta(dir: i32) -> Option<(int, int)> {
    if dir == 1 {
        Some((-1, 1))
    } else if dir == 2 {
        Some((0, 1))
    } else if dir == 3 {
        Some((1, 1))
    } else if dir == 4 {
        Some((-1, 0))
    } else if dir == 6 {
        Some((1, 0))
    } else if dir == 7 {
        Some((-1, -1))
    } else if dir == 8 {
        Some((0, -1))
    } else if dir == 9 {
        Some((1, -1))
    } else {
        None
    }
}

/// Whether `dir` is one of the eight keypad directions.
pub open spec fn is_direction(dir: i32) -> bool {
    spec_dir_delta(dir) is Some
}

/// The point `amount` cells away from `origin` in keypad direction `dir`.
pub fn dir_to_point(origin: Point, dir: i32, amount: i32) -> (r: Point)
    requires
        is_direction(dir),
        0 <= amount <= 1_000_000,
        -1_000_000_000 <= origin.x <= 1_000_000_000,
        -1_000_000_000 <= origin.y <= 1_000_000_000,
    ensures
        r.x == origin.x + spec_dir_delta(dir).unwrap().0 * amount,
        r.y == origin.y + spec_dir_delta(dir).unwrap().1 * amount,
{
    let (dx, dy): (i32, i32) = if dir == 1 {
        (-1, 1)
    } else if dir == 2 {
        (0, 1)
    } else if dir == 3 {
        (1, 1)
    } else if dir == 4 {
        (-1, 0)
    } else if dir == 6 {
        (1, 0)
    } else if dir == 7 {
        (-1, -1)
    } else if dir == 8 {
        (0, -1)
    } else {
        (1, -1)
    };
    assert(-amount <= dx * amount <= amount) by (nonlinear_arith)
        requires
            -1 <= dx <= 1,
            0 <= amount,
    ;
    assert(-amount <= dy * amount <= amount) by (nonlinear_arith)
        requires
            -1 <= dy <= 1,
            0 <= amount,
    ;
    Point { x: origin.x + dx * amount, y: origin.y + dy * amount }
}

/// The eight cells around `p`, column by column from the left.
pub open spec fn spec_neighbors(p: Point) -> Seq<Point> {
    seq![
        Point { x: (p.x - 1) as i32, y: (p.y - 1) as i32 },
        Point { x: (p.x - 1) as i32, y: p.y },
        Point { x: (p.x - 1) as i32, y: (p.y + 1) as i32 },
        Point { x: p.x, y: (p.y - 1) as i32 },
        Point { x: p.x, y: (p.y + 1) as i32 },
        Point { x: (p.x + 1) as i32, y: (p.y - 1) as i32 },
        Point { x: (p.x + 1) as i32, y: p.y },
        Point { x: (p.x + 1) as i32, y: (p.y + 1) as i32 },
    ]
}

/// The eight cells around `point`.
pub fn get_neighbors(point: Point) -> (r: Vec<Point>)
    requires
        i32::MIN < point.x < i32::MAX,
        i32::MIN < point.y < i32::MAX,
    ensures
        r@ == spec_neighbors(point),
{
    let r = vec![
        Point { x: point.x - 1, y: point.y - 1 },
        Point { x: point.x - 1, y: point.y },
        Point { x: point.x - 1, y: point.y + 1 },
        Point { x: point.x, y: point.y - 1 },
        Point { x: point.x, y: point.y + 1 },
        Point { x: point.x + 1, y: point.y - 1 },
        Point { x: point.x + 1, y: point.y },
        Point { x: point.x + 1, y: point.y + 1 },
    ];
    assert(r@ =~= spec_neighbors(point));
    r
}

/// Every neighbour differs from the centre by at most one cell in each
/// axis, and is not the centre itself.
pub proof fn lemma_neighbors_adjacent(p: Point)
    requires
        i32::MIN < p.x < i32::MAX,
        i32::MIN < p.y < i32::MAX,
    ensures
        spec_neighbors(p).len() == 8,
        forall|i: int|
            0 <= i < 8 ==> {
                let q = #[trigger] spec_neighbors(p)[i];
                &&& -1 <= q.x - p.x <= 1
                &&& -1 <= q.y - p.y <= 1
                &&& q != p
            },
{
}

} // verus!
