//! Points, sizes and rectangles on the desktop.

use vstd::prelude::*;

verus! {

/// A point in pixels.
#[derive(Debug, Clone, Copy, PartialEq, Eq, Structural)]
pub struct Point {
    pub x: i32,
    pub y: i32,
}

/// A size in pixels.
#[derive(Debug, Clone, Copy, PartialEq, Eq, Structural)]
pub struct Size {
    pub w: i32,
    pub h: i32,
}

/// A rectangle in pixels.
#[derive(Debug, Clone, Copy, PartialEq, Eq, Structural)]
pub struct Rect {
    pub origin: Point,
    pub size: Size,
}

impl Rect {
    /// The rectangle with the given corner and size.
    pub fn new(x: i32, y: i32, w: i32, h: i32) -> (rect: Rect)
        ensures
            rect == (Rect { origin: Point { x, y }, size: Size { w, h } }),
    {
        Rect { origin: Point { x, y }, size: Size { w, h } }
    }

    /// Whether the rectangle covers the pixel at `(x, y)`.
    pub open spec fn covers(self, x: int, y: int) -> bool {
        &&& self.origin.x <= x < self.origin.x + self.size.w
        &&& self.origin.y <= y < self.origin.y + self.size.h
    }

    /// Whether the rectangle covers the pixel at `point`.
    pub fn contains(&self, point: Point) -> (inside: bool)
        ensures
            inside == self.covers(point.x as int, point.y as int),
    {
        let x: i64 = point.x as i64;
        let y: i64 = point.y as i64;
        let left: i64 = self.origin.x as i64;
        let top: i64 = self.origin.y as i64;
        left <= x && x < left + self.size.w as i64 && top <= y && y < top + self.size.h as i64
    }
}

/// The sum of two coordinates, held at the bounds of the coordinate range.
pub open spec fn saturating_sum(a: int, b: int) -> int {
    if a + b > i32::MAX {
        i32::MAX as int
    } else if a + b < i32::MIN {
        i32::MIN as int
    } else {
        a + b
    }
}

/// Add two coordinates, staying within the coordinate range.
pub fn saturating_add(a: i32, b: i32) -> (sum: i32)
    ensures
        sum == saturating_sum(a as int, b as int),
{
    let wide: i64 = a as i64 + b as i64;
    if wide > i32::MAX as i64 {
        i32::MAX
    } else if wide < i32::MIN as i64 {
        i32::MIN
    } else {
        wide as i32
    }
}

/// Subtract two coordinates, staying within the coordinate range.
pub fn saturating_sub(a: i32, b: i32) -> (difference: i32)
    ensures
        difference == saturating_sum(a as int, -(b as int)),
{
    let wide: i64 = a as i64 - b as i64;
    if wide > i32::MAX as i64 {
        i32::MAX
    } else if wide < i32::MIN as i64 {
        i32::MIN
    } else {
        wide as i32
    }
}

/// A coordinate held between two bounds.
pub open spec fn held_between(value: int, low: int, high: int) -> int {
    if value < low {
        low
    } else if value > high {
        high
    } else {
        value
    }
}

/// Hold a coordinate between two bounds.
pub fn hold_between(value: i32, low: i32, high: i32) -> (held: i32)
    ensures
        held == held_between(value as int, low as int, high as int),
{
    if value < low {
        low
    } else if value > high {
        high
    } else {
        value
    }
}

/// The smaller of two coordinates.
pub fn smaller(a: i32, b: i32) -> (least: i32)
    ensures
        least == if a <= b {
            a
        } else {
            b
        },
{
    if a <= b {
        a
    } else {
        b
    }
}

/// The larger of two coordinates.
pub fn larger(a: i32, b: i32) -> (greatest: i32)
    ensures
        greatest == if a >= b {
            a
        } else {
            b
        },
{
    if a >= b {
        a
    } else {
        b
    }
}

/// A rectangle contains a point if and only if the point is right of or on its left
/// edge and left of its right edge, and so for top and bottom.
pub proof fn rectangles_contain_their_points(rect: Rect, point: Point, inside: bool)
    requires
        call_ensures(Rect::contains, (&rect, point), inside),
    ensures
        inside <==> {
            &&& rect.origin.x <= point.x && point.x < rect.origin.x + rect.size.w
            &&& rect.origin.y <= point.y && point.y < rect.origin.y + rect.size.h
        },
{
}

/// Sums and differences that fit in the coordinate range are exact; the others are
/// the nearest coordinate.
pub proof fn saturating_arithmetic_is_exact_where_it_fits(
    a: i32,
    b: i32,
    sum: i32,
    difference: i32,
    other: i32,
)
    requires
        call_ensures(saturating_add, (a, b), sum),
        call_ensures(saturating_sub, (a, b), difference),
    ensures
        i32::MIN <= a + b <= i32::MAX ==> sum == a + b,
        a + b > i32::MAX ==> sum == i32::MAX,
        a + b < i32::MIN ==> sum == i32::MIN,
        i32::MIN <= a - b <= i32::MAX ==> difference == a - b,
        a - b > i32::MAX ==> difference == i32::MAX,
        a - b < i32::MIN ==> difference == i32::MIN,
{
}

/// A held coordinate is within the bounds, and no nearer one within them differs
/// from it.
pub proof fn held_coordinates_stay_near(value: i32, low: i32, high: i32, held: i32, other: int)
    requires
        low <= high,
        call_ensures(hold_between, (value, low, high), held),
        low <= other <= high,
    ensures
        low <= held <= high,
        value <= other ==> held <= other,
        value >= other ==> held >= other,
{
}

/// The smaller of two coordinates is one of them and not above either; the larger
/// is one of them and not below either.
pub proof fn smaller_and_larger_are_extremes(a: i32, b: i32, least: i32, greatest: i32)
    requires
        call_ensures(smaller, (a, b), least),
        call_ensures(larger, (a, b), greatest),
    ensures
        least <= a && least <= b && (least == a || least == b),
        greatest >= a && greatest >= b && (greatest == a || greatest == b),
{
}

} // verus!
