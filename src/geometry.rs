use vstd::prelude::*;

verus! {

/// The smaller of two integers.
pub open spec fn min_int(a: int, b: int) -> int {
    if a <= b {
        a
    } else {
        b
    }
}

/// The larger of two integers.
pub open spec fn max_int(a: int, b: int) -> int {
    if a >= b {
        a
    } else {
        b
    }
}

/// Length of the intersection of the half-open intervals `[lo1, hi1)` and
/// `[lo2, hi2)`; zero when they do not meet.
pub open spec fn span(lo1: int, hi1: int, lo2: int, hi2: int) -> int {
    let len = min_int(hi1, hi2) - max_int(lo1, lo2);
    if len > 0 {
        len
    } else {
        0
    }
}

/// An axis-aligned rectangle in screen space.
#[derive(Debug, Clone, Copy, PartialEq, Eq, Structural)]
pub struct Geometry {
    /// The x position.
    pub x: i32,
    /// The y position.
    pub y: i32,
    /// The width.
    pub width: u32,
    /// The height.
    pub height: u32,
}

impl Geometry {
    /// The right edge, `x + width`, as an exact integer.
    pub open spec fn right_spec(self) -> int {
        self.x + self.width
    }

    /// The bottom edge, `y + height`, as an exact integer.
    pub open spec fn bottom_spec(self) -> int {
        self.y + self.height
    }

    /// Area of the intersection of two rectangles; zero when they are disjoint.
    pub open spec fn overlap_spec(self, other: Geometry) -> int {
        span(self.x as int, self.right_spec(), other.x as int, other.right_spec()) * span(
            self.y as int,
            self.bottom_spec(),
            other.y as int,
            other.bottom_spec(),
        )
    }

    /// Half-open membership of a point.
    pub open spec fn contains_spec(self, px: int, py: int) -> bool {
        self.x <= px < self.right_spec() && self.y <= py < self.bottom_spec()
    }

    /// Creates a geometry from its position and size.
    pub fn new(x: i32, y: i32, width: u32, height: u32) -> (g: Geometry)
        ensures
            g == (Geometry { x, y, width, height }),
    {
        Geometry { x, y, width, height }
    }

    /// The x position.
    pub fn x(&self) -> (r: i32)
        ensures
            r == self.x,
    {
        self.x
    }

    /// The y position.
    pub fn y(&self) -> (r: i32)
        ensures
            r == self.y,
    {
        self.y
    }

    /// The width.
    pub fn width(&self) -> (r: u32)
        ensures
            r == self.width,
    {
        self.width
    }

    /// The height.
    pub fn height(&self) -> (r: u32)
        ensures
            r == self.height,
    {
        self.height
    }

    /// The sum of the x position and the width.
    pub fn right(&self) -> (r: i64)
        ensures
            r == self.right_spec(),
    {
        self.x as i64 + self.width as i64
    }

    /// The sum of the y position and the height.
    pub fn bottom(&self) -> (r: i64)
        ensures
            r == self.bottom_spec(),
    {
        self.y as i64 + self.height as i64
    }

    /// The area that this geometry shares with `other`, zero when they do not meet.
    pub fn overlap(&self, other: Geometry) -> (r: u64)
        ensures
            r == self.overlap_spec(other),
    {
        let xs = interval_overlap(self.x as i64, self.right(), other.x as i64, other.right());
        let ys = interval_overlap(self.y as i64, self.bottom(), other.y as i64, other.bottom());
        assert(xs * ys <= 0xFFFF_FFFFu64 * 0xFFFF_FFFFu64) by (nonlinear_arith)
            requires
                xs <= 0xFFFF_FFFFu64,
                ys <= 0xFFFF_FFFFu64,
        ;
        xs * ys
    }

    /// Whether the point `(x, y)` lies in this geometry (half-open on the right and bottom).
    pub fn contains(&self, x: i32, y: i32) -> (r: bool)
        ensures
            r == self.contains_spec(x as int, y as int),
    {
        x >= self.x && (x as i64) < self.right() && y >= self.y && (y as i64) < self.bottom()
    }
}

/// Length of the intersection of `[lo1, hi1)` and `[lo2, hi2)`, where the
/// first interval is no longer than a `u32`.
fn interval_overlap(lo1: i64, hi1: i64, lo2: i64, hi2: i64) -> (r: u64)
    requires
        lo1 <= hi1 <= lo1 + 0xFFFF_FFFF,
        i32::MIN <= lo1,
        i32::MIN <= lo2,
        hi1 <= i32::MAX + 0xFFFF_FFFF,
        hi2 <= i32::MAX + 0xFFFF_FFFF,
    ensures
        r == span(lo1 as int, hi1 as int, lo2 as int, hi2 as int),
        r <= 0xFFFF_FFFF,
{
    let hi = if hi1 <= hi2 {
        hi1
    } else {
        hi2
    };
    let lo = if lo1 >= lo2 {
        lo1
    } else {
        lo2
    };
    if hi > lo {
        (hi - lo) as u64
    } else {
        0
    }
}

/// Overlap is symmetric: the area shared by `a` with `b` is the area shared by `b` with `a`.
pub proof fn lemma_overlap_symmetric(a: Geometry, b: Geometry)
    ensures
        a.overlap_spec(b) == b.overlap_spec(a),
{
}

/// Rectangles separated along either axis share no area.
pub proof fn lemma_overlap_disjoint(a: Geometry, b: Geometry)
    requires
        a.right_spec() <= b.x || b.right_spec() <= a.x || a.bottom_spec() <= b.y
            || b.bottom_spec() <= a.y,
    ensures
        a.overlap_spec(b) == 0,
{
}

} // verus!
