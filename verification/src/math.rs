//! Vectors, axis-aligned rectangles and the four directions, with the
//! integer arithmetic the rest of the engine is built on.

use vstd::prelude::*;
use crate::config::UNIT;

pub mod utils;

verus! {

/// The value nearest to `v` that an `i32` can hold.
pub open spec fn saturate(v: int) -> int {
    if v < i32::MIN as int {
        i32::MIN as int
    } else if v > i32::MAX as int {
        i32::MAX as int
    } else {
        v
    }
}

/// `a` divided by `b`, rounded toward zero.
pub open spec fn quotient(a: int, b: int) -> int
    recommends
        b != 0,
{
    if b > 0 {
        if a >= 0 {
            a / b
        } else {
            -((-a) / b)
        }
    } else {
        if a >= 0 {
            -(a / (-b))
        } else {
            (-a) / (-b)
        }
    }
}

/// The greater of two integers.
pub open spec fn greater(a: int, b: int) -> int {
    if a >= b {
        a
    } else {
        b
    }
}

/// The lesser of two integers.
pub open spec fn lesser(a: int, b: int) -> int {
    if a <= b {
        a
    } else {
        b
    }
}

/// The distance of an integer from zero.
pub open spec fn magnitude(a: int) -> int {
    if a >= 0 {
        a
    } else {
        -a
    }
}

/// Narrows a wide result to a stored coordinate.
pub fn saturate_to_i32(v: i128) -> (r: i32)
    ensures
        r == saturate(v as int),
{
    if v < -2147483648 {
        -2147483648
    } else if v > 2147483647 {
        2147483647
    } else {
        v as i32
    }
}

/// Divides rounding toward zero.
pub fn divide(a: i128, b: i128) -> (r: i128)
    requires
        b != 0,
        i128::MIN < a,
        i128::MIN < b,
    ensures
        r == quotient(a as int, b as int),
{
    if b > 0 {
        if a >= 0 {
            a / b
        } else {
            let q: i128 = (-a) / b;
            -q
        }
    } else {
        if a >= 0 {
            let q: i128 = a / (-b);
            -q
        } else {
            (-a) / (-b)
        }
    }
}

/// Multiplies without loss.
pub fn multiply(a: i64, b: i64) -> (r: i128)
    ensures
        r == (a as int) * (b as int),
        -0x4000_0000_0000_0000_0000_0000_0000_0000 <= r <= 0x4000_0000_0000_0000_0000_0000_0000_0000,
{
    assert(-0x4000_0000_0000_0000_0000_0000_0000_0000 <= (a as int) * (b as int)
        <= 0x4000_0000_0000_0000_0000_0000_0000_0000) by (nonlinear_arith)
        requires
            -0x8000_0000_0000_0000 <= a <= 0x8000_0000_0000_0000,
            -0x8000_0000_0000_0000 <= b <= 0x8000_0000_0000_0000,
    ;
    (a as i128) * (b as i128)
}

/// Divides rounding down; the divisor is positive.
pub fn floor_divide(a: i64, b: i64) -> (r: i64)
    requires
        b > 0,
    ensures
        r == (a as int) / (b as int),
{
    if a >= 0 {
        a / b
    } else {
        let m: i64 = -(a + 1);
        let q: i64 = m / b;
        assert(((a as int) / (b as int)) == -(q as int) - 1) by (nonlinear_arith)
            requires
                b > 0,
                a < 0,
                m == -(a + 1),
                q == (m as int) / (b as int),
        ;
        -q - 1
    }
}

/// A point or an offset in the plane.
#[derive(Debug, Clone, Copy, PartialEq, Eq, Structural)]
pub struct Vector2 {
    pub x: i32,
    pub y: i32,
}

impl Vector2 {
    /// The vector with the two given components.
    pub fn new(x: i32, y: i32) -> (v: Self)
        ensures
            v.x == x,
            v.y == y,
    {
        Self { x, y }
    }

    /// The vector whose components are both zero.
    pub open spec fn origin() -> Self {
        Vector2 { x: 0, y: 0 }
    }

    /// The vector whose components are both zero.
    pub fn zero() -> (v: Self)
        ensures
            v == Self::origin(),
    {
        Self { x: 0, y: 0 }
    }

    /// The square of the distance between two points, in squared grid steps.
    pub open spec fn gap_squared(self, other: Vector2) -> int {
        (self.x - other.x) * (self.x - other.x) + (self.y - other.y) * (self.y - other.y)
    }

    /// The componentwise sum, each component saturating.
    pub fn plus(self, other: Vector2) -> (v: Self)
        ensures
            v.x == saturate(self.x + other.x),
            v.y == saturate(self.y + other.y),
    {
        Self {
            x: saturate_to_i32(self.x as i128 + other.x as i128),
            y: saturate_to_i32(self.y as i128 + other.y as i128),
        }
    }

    /// The componentwise difference, each component saturating.
    pub fn minus(self, other: Vector2) -> (v: Self)
        ensures
            v.x == saturate(self.x - other.x),
            v.y == saturate(self.y - other.y),
    {
        Self {
            x: saturate_to_i32(self.x as i128 - other.x as i128),
            y: saturate_to_i32(self.y as i128 - other.y as i128),
        }
    }

    /// The square of the distance to another point.
    pub fn distance_squared(self, other: Vector2) -> (d: i128)
        ensures
            d == self.gap_squared(other),
            0 <= d <= 0x2_0000_0000_0000_0000,
    {
        let dx: i128 = self.x as i128 - other.x as i128;
        let dy: i128 = self.y as i128 - other.y as i128;
        assert(0 <= dx * dx <= 0x1_0000_0000_0000_0000) by (nonlinear_arith)
            requires
                -0x1_0000_0000 <= dx <= 0x1_0000_0000,
        ;
        assert(0 <= dy * dy <= 0x1_0000_0000_0000_0000) by (nonlinear_arith)
            requires
                -0x1_0000_0000 <= dy <= 0x1_0000_0000,
        ;
        dx * dx + dy * dy
    }
}

/// An axis-aligned rectangle: a corner and an extent. The vertical axis
/// points down, so the top edge is the one with the smaller coordinate.
#[derive(Debug, Clone, Copy, PartialEq, Eq, Structural)]
pub struct Rect {
    pub x: i32,
    pub y: i32,
    pub width: i32,
    pub height: i32,
}

impl Rect {
    /// The left edge.
    pub open spec fn left_edge(self) -> int {
        self.x as int
    }

    /// The right edge.
    pub open spec fn right_edge(self) -> int {
        self.x + self.width
    }

    /// The top edge.
    pub open spec fn top_edge(self) -> int {
        self.y as int
    }

    /// The bottom edge.
    pub open spec fn bottom_edge(self) -> int {
        self.y + self.height
    }

    /// Neither extent is negative.
    pub open spec fn proper(self) -> bool {
        self.width >= 0 && self.height >= 0
    }

    /// The two rectangles share a point of their interiors.
    pub open spec fn overlaps(self, other: Rect) -> bool {
        &&& self.left_edge() < other.right_edge()
        &&& self.right_edge() > other.left_edge()
        &&& self.top_edge() < other.bottom_edge()
        &&& self.bottom_edge() > other.top_edge()
    }

    /// The rectangle between the inner edges of two rectangles.
    pub open spec fn common(self, other: Rect) -> Rect {
        let left = greater(self.left_edge(), other.left_edge());
        let top = greater(self.top_edge(), other.top_edge());
        let right = lesser(self.right_edge(), other.right_edge());
        let bottom = lesser(self.bottom_edge(), other.bottom_edge());
        Rect {
            x: left as i32,
            y: top as i32,
            width: saturate(right - left) as i32,
            height: saturate(bottom - top) as i32,
        }
    }

    /// The part two rectangles share, where they overlap.
    pub open spec fn meet(self, other: Rect) -> Option<Rect> {
        if self.overlaps(other) {
            Some(self.common(other))
        } else {
            None
        }
    }

    /// The point halfway between the edges, each coordinate rounded toward
    /// the corner and saturating.
    pub open spec fn middle(self) -> Vector2 {
        Vector2 {
            x: saturate(self.x + quotient(self.width as int, 2)) as i32,
            y: saturate(self.y + quotient(self.height as int, 2)) as i32,
        }
    }

    /// The point lies in the rectangle, its edges included.
    pub open spec fn holds_point(self, point: Vector2) -> bool {
        &&& point.x >= self.left_edge()
        &&& point.x <= self.right_edge()
        &&& point.y >= self.top_edge()
        &&& point.y <= self.bottom_edge()
    }

    /// The other rectangle lies in this one, shared edges allowed.
    pub open spec fn holds_rect(self, other: Rect) -> bool {
        &&& self.left_edge() <= other.left_edge()
        &&& self.right_edge() >= other.right_edge()
        &&& self.top_edge() <= other.top_edge()
        &&& self.bottom_edge() >= other.bottom_edge()
    }

    /// The rectangle with the given corner and extent.
    pub fn new(x: i32, y: i32, width: i32, height: i32) -> (r: Self)
        ensures
            r == (Rect { x, y, width, height }),
    {
        Self { x, y, width, height }
    }

    /// The rectangle with corner `pos` and extent `size`.
    pub fn from_pos_size(pos: Vector2, size: Vector2) -> (r: Self)
        ensures
            r == (Rect { x: pos.x, y: pos.y, width: size.x, height: size.y }),
    {
        Self::new(pos.x, pos.y, size.x, size.y)
    }

    /// The left edge.
    pub fn left(&self) -> (e: i64)
        ensures
            e == self.left_edge(),
    {
        self.x as i64
    }

    /// The right edge.
    pub fn right(&self) -> (e: i64)
        ensures
            e == self.right_edge(),
    {
        self.x as i64 + self.width as i64
    }

    /// The top edge.
    pub fn top(&self) -> (e: i64)
        ensures
            e == self.top_edge(),
    {
        self.y as i64
    }

    /// The bottom edge.
    pub fn bottom(&self) -> (e: i64)
        ensures
            e == self.bottom_edge(),
    {
        self.y as i64 + self.height as i64
    }

    /// The center point.
    pub fn center(&self) -> (c: Vector2)
        ensures
            c == self.middle(),
    {
        let half_w: i128 = divide(self.width as i128, 2);
        let half_h: i128 = divide(self.height as i128, 2);
        Vector2 {
            x: saturate_to_i32(self.x as i128 + half_w),
            y: saturate_to_i32(self.y as i128 + half_h),
        }
    }

    /// The top-left corner.
    pub fn top_left(&self) -> (c: Vector2)
        ensures
            c.x == self.x,
            c.y == self.y,
    {
        Vector2::new(self.x, self.y)
    }

    /// The top-right corner, saturating.
    pub fn top_right(&self) -> (c: Vector2)
        ensures
            c.x == saturate(self.right_edge()),
            c.y == self.y,
    {
        Vector2::new(saturate_to_i32(self.right() as i128), self.y)
    }

    /// The bottom-left corner, saturating.
    pub fn bottom_left(&self) -> (c: Vector2)
        ensures
            c.x == self.x,
            c.y == saturate(self.bottom_edge()),
    {
        Vector2::new(self.x, saturate_to_i32(self.bottom() as i128))
    }

    /// The bottom-right corner, saturating.
    pub fn bottom_right(&self) -> (c: Vector2)
        ensures
            c.x == saturate(self.right_edge()),
            c.y == saturate(self.bottom_edge()),
    {
        Vector2::new(saturate_to_i32(self.right() as i128), saturate_to_i32(self.bottom() as i128))
    }

    /// Whether this rectangle overlaps another. Rectangles that only touch
    /// along an edge do not.
    pub fn intersects(&self, other: &Rect) -> (hit: bool)
        ensures
            hit == self.overlaps(*other),
    {
        self.left() < other.right() && self.right() > other.left() && self.top() < other.bottom()
            && self.bottom() > other.top()
    }

    /// Whether the point lies in this rectangle, edges included.
    pub fn contains_point(&self, point: Vector2) -> (inside: bool)
        ensures
            inside == self.holds_point(point),
    {
        point.x as i64 >= self.left() && point.x as i64 <= self.right() && point.y as i64
            >= self.top() && point.y as i64 <= self.bottom()
    }

    /// Whether the other rectangle lies wholly in this one.
    pub fn contains_rect(&self, other: &Rect) -> (inside: bool)
        ensures
            inside == self.holds_rect(*other),
    {
        self.left() <= other.left() && self.right() >= other.right() && self.top() <= other.top()
            && self.bottom() >= other.bottom()
    }

    /// The part this rectangle shares with another: `None` exactly when the
    /// two do not overlap. Between proper rectangles the shared part is
    /// proper too.
    pub fn intersection(&self, other: &Rect) -> (part: Option<Rect>)
        ensures
            part == self.meet(*other),
            part is None <==> !self.overlaps(*other),
            self.proper() && other.proper() && self.overlaps(*other) ==> part->0.proper(),
    {
        if !self.intersects(other) {
            return None;
        }
        let left: i64 = if self.left() >= other.left() {
            self.left()
        } else {
            other.left()
        };
        let right: i64 = if self.right() <= other.right() {
            self.right()
        } else {
            other.right()
        };
        let top: i64 = if self.top() >= other.top() {
            self.top()
        } else {
            other.top()
        };
        let bottom: i64 = if self.bottom() <= other.bottom() {
            self.bottom()
        } else {
            other.bottom()
        };
        Some(
            Rect {
                x: left as i32,
                y: top as i32,
                width: saturate_to_i32(right as i128 - left as i128),
                height: saturate_to_i32(bottom as i128 - top as i128),
            },
        )
    }

    /// The rectangle grown by `amount` on every side, each field saturating.
    pub fn expand(&self, amount: i32) -> (r: Rect)
        ensures
            r.x == saturate(self.x - amount),
            r.y == saturate(self.y - amount),
            r.width == saturate(self.width + 2 * amount),
            r.height == saturate(self.height + 2 * amount),
    {
        Rect {
            x: saturate_to_i32(self.x as i128 - amount as i128),
            y: saturate_to_i32(self.y as i128 - amount as i128),
            width: saturate_to_i32(self.width as i128 + 2 * (amount as i128)),
            height: saturate_to_i32(self.height as i128 + 2 * (amount as i128)),
        }
    }

    /// The rectangle moved by `offset`, its corner saturating.
    pub fn translate(&self, offset: Vector2) -> (r: Rect)
        ensures
            r.x == saturate(self.x + offset.x),
            r.y == saturate(self.y + offset.y),
            r.width == self.width,
            r.height == self.height,
    {
        Rect {
            x: saturate_to_i32(self.x as i128 + offset.x as i128),
            y: saturate_to_i32(self.y as i128 + offset.y as i128),
            width: self.width,
            height: self.height,
        }
    }
}

impl Default for Rect {
    fn default() -> (r: Self)
        ensures
            r == (Rect { x: 0, y: 0, width: 0, height: 0 }),
    {
        Self::new(0, 0, 0, 0)
    }
}

/// Overlap does not depend on the order of the two rectangles.
pub proof fn lemma_overlap_symmetric(a: Rect, b: Rect)
    ensures
        a.overlaps(b) == b.overlaps(a),
{
}

/// Two rectangles have no shared part exactly when they do not overlap.
pub proof fn lemma_meet_none_iff_disjoint(a: Rect, b: Rect)
    ensures
        a.meet(b) is None <==> !a.overlaps(b),
{
}

/// The shared part does not depend on the order of the two rectangles.
pub proof fn lemma_meet_symmetric(a: Rect, b: Rect)
    ensures
        a.meet(b) == b.meet(a),
{
}

/// The shared part of two proper rectangles is proper, lies in both, and
/// reaches from the inner edge on one side to the inner edge on the other.
pub proof fn lemma_meet_proper(a: Rect, b: Rect)
    requires
        a.proper(),
        b.proper(),
        a.overlaps(b),
    ensures
        a.meet(b)->0.proper(),
        a.meet(b)->0.width == lesser(a.right_edge(), b.right_edge()) - greater(
            a.left_edge(),
            b.left_edge(),
        ),
        a.meet(b)->0.height == lesser(a.bottom_edge(), b.bottom_edge()) - greater(
            a.top_edge(),
            b.top_edge(),
        ),
        a.holds_rect(a.meet(b)->0),
        b.holds_rect(a.meet(b)->0),
{
}

/// One of the four directions of movement and of contact.
#[derive(Debug, Clone, Copy, PartialEq, Eq, Hash, Structural)]
pub enum Direction {
    Up,
    Down,
    Left,
    Right,
}

impl Direction {
    /// The direction that points the other way.
    pub open spec fn reversed(self) -> Direction {
        match self {
            Direction::Up => Direction::Down,
            Direction::Down => Direction::Up,
            Direction::Left => Direction::Right,
            Direction::Right => Direction::Left,
        }
    }

    /// The opposite direction.
    pub fn opposite(&self) -> (d: Direction)
        ensures
            d == self.reversed(),
    {
        match self {
            Direction::Up => Direction::Down,
            Direction::Down => Direction::Up,
            Direction::Left => Direction::Right,
            Direction::Right => Direction::Left,
        }
    }

    /// The vector of length one unit that points this way.
    pub fn to_vector(&self) -> (v: Vector2)
        ensures
            v == match *self {
                Direction::Up => (Vector2 { x: 0, y: (-UNIT) as i32 }),
                Direction::Down => (Vector2 { x: 0, y: UNIT }),
                Direction::Left => (Vector2 { x: (-UNIT) as i32, y: 0 }),
                Direction::Right => (Vector2 { x: UNIT, y: 0 }),
            },
    {
        match self {
            Direction::Up => Vector2::new(0, -UNIT),
            Direction::Down => Vector2::new(0, UNIT),
            Direction::Left => Vector2::new(-UNIT, 0),
            Direction::Right => Vector2::new(UNIT, 0),
        }
    }

    /// Whether this is `Left` or `Right`.
    pub fn is_horizontal(&self) -> (h: bool)
        ensures
            h == (*self == Direction::Left || *self == Direction::Right),
    {
        match self {
            Direction::Left => true,
            Direction::Right => true,
            _ => false,
        }
    }

    /// Whether this is `Up` or `Down`.
    pub fn is_vertical(&self) -> (v: bool)
        ensures
            v == (*self == Direction::Up || *self == Direction::Down),
    {
        match self {
            Direction::Up => true,
            Direction::Down => true,
            _ => false,
        }
    }
}

/// Reversing a direction twice gives it back, and keeps its axis.
pub proof fn lemma_opposite_involutive(d: Direction)
    ensures
        d.reversed().reversed() == d,
        d.reversed() != d,
{
}

} // verus!
