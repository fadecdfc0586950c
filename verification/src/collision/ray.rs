//! Rays against rectangles, in whole numbers throughout: a place along a
//! ray is a fraction whose denominator is fixed by the direction of the
//! ray, so that places are compared without rounding.

use vstd::prelude::*;
use crate::math::{divide, greater, lesser, magnitude, multiply, quotient, saturate, saturate_to_i32, Rect, Vector2};

verus! {

/// `r` is the whole part of the square root of `n`.
pub open spec fn is_root(n: int, r: int) -> bool {
    r >= 0 && r * r <= n && n < (r + 1) * (r + 1)
}

/// The whole part of the square root of `n`.
pub open spec fn root(n: int) -> int {
    choose|r: int| is_root(n, r)
}

/// Only one number is the whole part of a square root.
pub proof fn lemma_root_unique(n: int, r: int)
    requires
        r >= 0,
        r * r <= n,
        n < (r + 1) * (r + 1),
    ensures
        root(n) == r,
{
    let s = root(n);
    assert(is_root(n, r));
    assert(is_root(n, s));
    if s < r {
        assert((s + 1) * (s + 1) <= r * r) by (nonlinear_arith)
            requires
                0 <= s,
                s + 1 <= r,
        ;
    } else if r < s {
        assert((r + 1) * (r + 1) <= s * s) by (nonlinear_arith)
            requires
                0 <= r,
                r + 1 <= s,
        ;
    }
}

/// The whole part of the square root.
pub fn integer_root(n: u64) -> (r: u64)
    ensures
        r == root(n as int),
        r * r <= n,
        n < (r + 1) * (r + 1),
        r <= 0xffff_ffff,
{
    let mut low: u64 = 0;
    let mut high: u64 = 0x1_0000_0000;
    assert(0x1_0000_0000u64 * 0x1_0000_0000u64 > n) by (nonlinear_arith)
        requires
            n <= 0xffff_ffff_ffff_ffff,
    ;
    while high - low > 1
        invariant
            low < high <= 0x1_0000_0000,
            low * low <= n,
            n < high * high,
        decreases high - low,
    {
        let mid: u64 = low + (high - low) / 2;
        assert(mid * mid <= 0xffff_ffff * 0xffff_ffff) by (nonlinear_arith)
            requires
                0 <= mid <= 0xffff_ffff,
        ;
        if mid * mid <= n {
            low = mid;
        } else {
            high = mid;
        }
    }
    proof {
        lemma_root_unique(n as int, low as int);
    }
    low
}

/// The whole part of the square root of a number of up to 66 bits.
pub fn wide_root(n: u128) -> (r: u64)
    requires
        n < 0x4_0000_0000_0000_0000,
    ensures
        r == root(n as int),
        r * r <= n,
        n < (r + 1) * (r + 1),
        r <= 0x1_ffff_ffff,
{
    let mut low: u128 = 0;
    let mut high: u128 = 0x2_0000_0000;
    while high - low > 1
        invariant
            low < high <= 0x2_0000_0000,
            low * low <= n,
            n < high * high,
        decreases high - low,
    {
        let mid: u128 = low + (high - low) / 2;
        assert(mid * mid <= 0x1_ffff_ffff * 0x1_ffff_ffff) by (nonlinear_arith)
            requires
                0 <= mid <= 0x1_ffff_ffff,
        ;
        if mid * mid <= n {
            low = mid;
        } else {
            high = mid;
        }
    }
    proof {
        lemma_root_unique(n as int, low as int);
    }
    low as u64
}

/// Where a ray ends that starts at `start`, points along `direction` and is
/// `max_distance` long: the direction is scaled by the length over the
/// whole part of its own length, each coordinate rounded toward the start
/// and saturating.
pub open spec fn ray_end(start: Vector2, direction: Vector2, max_distance: i32) -> Vector2 {
    let length = root(direction.x * direction.x + direction.y * direction.y);
    Vector2 {
        x: saturate(start.x + quotient(direction.x * max_distance, length)) as i32,
        y: saturate(start.y + quotient(direction.y * max_distance, length)) as i32,
    }
}

/// The rectangle between two points.
pub open spec fn box_between(a: Vector2, b: Vector2) -> Rect {
    Rect {
        x: lesser(a.x as int, b.x as int) as i32,
        y: lesser(a.y as int, b.y as int) as i32,
        width: saturate(magnitude(b.x - a.x)) as i32,
        height: saturate(magnitude(b.y - a.y)) as i32,
    }
}

/// Minus one, zero or one as `d` is below, at or above zero.
pub open spec fn sign(d: int) -> int {
    if d > 0 {
        1
    } else if d < 0 {
        -1
    } else {
        0
    }
}

/// By what the places along an axis are scaled to make them whole: the
/// component of the direction along the axis, and one where the ray runs
/// across the axis.
pub open spec fn weight(d: int) -> int {
    if d == 0 {
        1
    } else {
        magnitude(d)
    }
}

/// Where the ray comes into the slab between `low` and `high` along one
/// axis, times `weight(d)`; `d` is not zero.
pub open spec fn slab_near(s: int, d: int, low: int, high: int) -> int {
    lesser((low - s) * sign(d), (high - s) * sign(d))
}

/// Where the ray leaves the slab between `low` and `high` along one axis,
/// times `weight(d)`; `d` is not zero.
pub open spec fn slab_far(s: int, d: int, low: int, high: int) -> int {
    greater((low - s) * sign(d), (high - s) * sign(d))
}

/// The stretch of a ray that lies between the sides of a rectangle on both
/// axes.
pub struct Span {
    /// Where the stretch begins, times `scale`.
    pub near: int,
    /// Where the stretch ends, times `scale`.
    pub far: int,
    /// The product of the weights of the two axes.
    pub scale: int,
}

/// The stretch of the ray from `start` along `direction` that lies in
/// `rect`, in steps of the direction. Along an axis that the ray crosses,
/// the ray comes into the slab of the rectangle at the nearer side and
/// leaves it at the farther; the stretch begins where the ray has come
/// into both slabs and ends where it leaves the first. A ray that runs
/// along an axis has no stretch unless it starts strictly between the two
/// sides that it runs along.
pub open spec fn ray_span(start: Vector2, direction: Vector2, rect: Rect) -> Option<Span> {
    let dx = direction.x as int;
    let dy = direction.y as int;
    let scale = weight(dx) * weight(dy);
    let near_x = slab_near(start.x as int, dx, rect.left_edge(), rect.right_edge()) * weight(dy);
    let far_x = slab_far(start.x as int, dx, rect.left_edge(), rect.right_edge()) * weight(dy);
    let near_y = slab_near(start.y as int, dy, rect.top_edge(), rect.bottom_edge()) * weight(dx);
    let far_y = slab_far(start.y as int, dy, rect.top_edge(), rect.bottom_edge()) * weight(dx);
    if dx == 0 && dy == 0 {
        None
    } else if dx == 0 {
        if rect.left_edge() < start.x < rect.right_edge() {
            Some(Span { near: near_y, far: far_y, scale })
        } else {
            None
        }
    } else if dy == 0 {
        if rect.top_edge() < start.y < rect.bottom_edge() {
            Some(Span { near: near_x, far: far_x, scale })
        } else {
            None
        }
    } else {
        Some(Span { near: greater(near_x, near_y), far: lesser(far_x, far_y), scale })
    }
}

/// Where a ray meets a rectangle: where its stretch in the rectangle
/// begins, or where the stretch ends if the ray starts within it. `None`
/// where there is no stretch, the stretch is empty or it lies behind the
/// start.
pub open spec fn ray_hit(start: Vector2, direction: Vector2, rect: Rect) -> Option<Vector2> {
    match ray_span(start, direction, rect) {
        Some(span) => if span.far < 0 || span.near > span.far {
            None
        } else {
            let at = if span.near < 0 {
                span.far
            } else {
                span.near
            };
            Some(
                Vector2 {
                    x: saturate(start.x + quotient(direction.x * at, span.scale)) as i32,
                    y: saturate(start.y + quotient(direction.y * at, span.scale)) as i32,
                },
            )
        },
        None => None,
    }
}

/// A product of a factor of 34 bits and one of 66.
fn times(a: i128, b: i128) -> (r: i128)
    requires
        -0x2_0000_0000 <= a <= 0x2_0000_0000,
        -0x2_0000_0000_0000_0000 <= b <= 0x2_0000_0000_0000_0000,
    ensures
        r == a * b,
        -0x4_0000_0000_0000_0000_0000_0000 <= r <= 0x4_0000_0000_0000_0000_0000_0000,
{
    assert(-0x4_0000_0000_0000_0000_0000_0000 <= a * b <= 0x4_0000_0000_0000_0000_0000_0000)
        by (nonlinear_arith)
        requires
            -0x2_0000_0000 <= a <= 0x2_0000_0000,
            -0x2_0000_0000_0000_0000 <= b <= 0x2_0000_0000_0000_0000,
    ;
    a * b
}

/// A place along one axis times the weight of the other.
fn weigh(place: i128, w: i128) -> (r: i128)
    requires
        -0x2_0000_0000 <= place <= 0x2_0000_0000,
        1 <= w <= 0x8000_0000,
    ensures
        r == place * w,
        -0x1_0000_0000_0000_0000 <= r <= 0x1_0000_0000_0000_0000,
{
    assert(-0x1_0000_0000_0000_0000 <= place * w <= 0x1_0000_0000_0000_0000) by (nonlinear_arith)
        requires
            -0x2_0000_0000 <= place <= 0x2_0000_0000,
            1 <= w <= 0x8000_0000,
    ;
    place * w
}

/// The distance of a number from zero.
fn absolute(a: i128) -> (r: i128)
    requires
        a > i128::MIN,
    ensures
        r == magnitude(a as int),
{
    if a >= 0 {
        a
    } else {
        -a
    }
}

/// Where a ray ends: see `ray_end`. The direction is not zero.
pub fn end_of_ray(start: Vector2, direction: Vector2, max_distance: i32) -> (end: Vector2)
    requires
        direction.x != 0 || direction.y != 0,
    ensures
        end == ray_end(start, direction, max_distance),
{
    let dx: i64 = direction.x as i64;
    let dy: i64 = direction.y as i64;
    let xx: i128 = multiply(dx, dx);
    let yy: i128 = multiply(dy, dy);
    assert(0 <= xx <= 0x4000_0000_0000_0000 && 0 <= yy <= 0x4000_0000_0000_0000 && xx + yy > 0)
        by (nonlinear_arith)
        requires
            xx == dx * dx,
            yy == dy * dy,
            -0x8000_0000 <= dx <= 0x7fff_ffff,
            -0x8000_0000 <= dy <= 0x7fff_ffff,
            dx != 0 || dy != 0,
    ;
    let length: u64 = integer_root((xx + yy) as u64);
    assert(length > 0) by (nonlinear_arith)
        requires
            xx + yy > 0,
            xx + yy < (length + 1) * (length + 1),
            length >= 0,
    ;
    let along_x: i128 = divide(multiply(dx, max_distance as i64), length as i128);
    let along_y: i128 = divide(multiply(dy, max_distance as i64), length as i128);
    proof {
        crate::math::utils::lemma_quotient_bounded(dx * max_distance, length as int);
        crate::math::utils::lemma_quotient_bounded(dy * max_distance, length as int);
    }
    Vector2 {
        x: saturate_to_i32(start.x as i128 + along_x),
        y: saturate_to_i32(start.y as i128 + along_y),
    }
}

/// The rectangle between two points: see `box_between`.
pub fn box_of(a: Vector2, b: Vector2) -> (rect: Rect)
    ensures
        rect == box_between(a, b),
{
    Rect {
        x: if a.x <= b.x {
            a.x
        } else {
            b.x
        },
        y: if a.y <= b.y {
            a.y
        } else {
            b.y
        },
        width: saturate_to_i32(absolute(b.x as i128 - a.x as i128)),
        height: saturate_to_i32(absolute(b.y as i128 - a.y as i128)),
    }
}

/// Where the ray comes into a slab and where it leaves it, each times the
/// weight of the axis; `d` is not zero.
fn slab(s: i32, d: i32, low: i64, high: i64) -> (ends: (i128, i128))
    requires
        d != 0,
        -0x1_0000_0000 <= low <= 0x1_0000_0000,
        -0x1_0000_0000 <= high <= 0x1_0000_0000,
    ensures
        ends.0 == slab_near(s as int, d as int, low as int, high as int),
        ends.1 == slab_far(s as int, d as int, low as int, high as int),
        -0x2_0000_0000 <= ends.0 <= 0x2_0000_0000,
        -0x2_0000_0000 <= ends.1 <= 0x2_0000_0000,
{
    let a: i128 = if d > 0 {
        low as i128 - s as i128
    } else {
        -(low as i128 - s as i128)
    };
    let b: i128 = if d > 0 {
        high as i128 - s as i128
    } else {
        -(high as i128 - s as i128)
    };
    if a <= b {
        (a, b)
    } else {
        (b, a)
    }
}

/// The weight of an axis.
fn weight_of(d: i32) -> (w: i128)
    ensures
        w == weight(d as int),
        1 <= w <= 0x8000_0000,
{
    if d == 0 {
        1
    } else {
        absolute(d as i128)
    }
}

/// Where a ray meets a rectangle: see `ray_hit`.
pub fn ray_rect_intersection(ray_start: Vector2, ray_dir: Vector2, rect: &Rect) -> (point: Option<
    Vector2,
>)
    ensures
        point == ray_hit(ray_start, ray_dir, *rect),
{
    if ray_dir.x == 0 && ray_dir.y == 0 {
        return None;
    }
    let wx = weight_of(ray_dir.x);
    let wy = weight_of(ray_dir.y);
    let scale: i128 = times(wx, wy);
    assert(1 <= scale <= 0x4000_0000_0000_0000) by (nonlinear_arith)
        requires
            scale == wx * wy,
            1 <= wx <= 0x8000_0000,
            1 <= wy <= 0x8000_0000,
    ;
    let (near, far): (i128, i128) = if ray_dir.x == 0 {
        if !(rect.left() < ray_start.x as i64 && (ray_start.x as i64) < rect.right()) {
            return None;
        }
        let (n, f) = slab(ray_start.y, ray_dir.y, rect.top(), rect.bottom());
        (weigh(n, wx), weigh(f, wx))
    } else if ray_dir.y == 0 {
        if !(rect.top() < ray_start.y as i64 && (ray_start.y as i64) < rect.bottom()) {
            return None;
        }
        let (n, f) = slab(ray_start.x, ray_dir.x, rect.left(), rect.right());
        (weigh(n, wy), weigh(f, wy))
    } else {
        let (nx, fx) = slab(ray_start.x, ray_dir.x, rect.left(), rect.right());
        let (ny, fy) = slab(ray_start.y, ray_dir.y, rect.top(), rect.bottom());
        let near_x = weigh(nx, wy);
        let far_x = weigh(fx, wy);
        let near_y = weigh(ny, wx);
        let far_y = weigh(fy, wx);
        (
            if near_x >= near_y {
                near_x
            } else {
                near_y
            },
            if far_x <= far_y {
                far_x
            } else {
                far_y
            },
        )
    };
    if far < 0 || near > far {
        return None;
    }
    let at: i128 = if near < 0 {
        far
    } else {
        near
    };
    let along_x: i128 = divide(times(ray_dir.x as i128, at), scale);
    let along_y: i128 = divide(times(ray_dir.y as i128, at), scale);
    proof {
        crate::math::utils::lemma_quotient_bounded(ray_dir.x * at, scale as int);
        crate::math::utils::lemma_quotient_bounded(ray_dir.y * at, scale as int);
    }
    Some(
        Vector2 {
            x: saturate_to_i32(ray_start.x as i128 + along_x),
            y: saturate_to_i32(ray_start.y as i128 + along_y),
        },
    )
}

/// A distance is less than `range`; `gap` is the square of the distance.
pub open spec fn within(gap: int, range: int) -> bool {
    range > 0 && gap < range * range
}

/// Whether a distance is less than `range`, given its square.
pub fn is_within(gap: i128, range: i32) -> (near: bool)
    ensures
        near == within(gap as int, range as int),
{
    range > 0 && gap < multiply(range as i64, range as i64)
}

} // verus!
