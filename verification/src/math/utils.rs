//! Small numeric helpers.

use vstd::prelude::*;
use crate::config::UNIT;
use crate::collision::ray::{root, wide_root};
use crate::math::{divide, quotient, saturate, saturate_to_i32, Vector2};

verus! {

/// `value` held between `min` and `max`: `min` where it is below, else
/// `max` where it is above.
pub open spec fn clamped(value: int, min: int, max: int) -> int {
    if value < min {
        min
    } else if value > max {
        max
    } else {
        value
    }
}

/// Clamps a value between `min` and `max`.
pub fn clamp(value: i32, min: i32, max: i32) -> (r: i32)
    ensures
        r == clamped(value as int, min as int, max as int),
{
    if value < min {
        min
    } else if value > max {
        max
    } else {
        value
    }
}

/// The point a fraction `t` of the way from `a` to `b`; `t` is a
/// fixed-point fraction, so `UNIT` stands for the whole way.
pub fn lerp(a: i32, b: i32, t: i32) -> (r: i32)
    ensures
        r == saturate(a + quotient((b - a) * t, UNIT as int)),
{
    let span: i128 = b as i128 - a as i128;
    assert(-0x1_0000_0000_0000_0000 <= span * (t as i128) <= 0x1_0000_0000_0000_0000)
        by (nonlinear_arith)
        requires
            -0x1_0000_0000 <= span <= 0x1_0000_0000,
            -0x8000_0000 <= t <= 0x8000_0000,
    ;
    let part: i128 = divide(span * (t as i128), UNIT as i128);
    assert(-0x1_0000_0000_0000_0000 <= part <= 0x1_0000_0000_0000_0000) by {
        lemma_quotient_bounded(span * (t as i128) as int, UNIT as int);
    }
    saturate_to_i32(a as i128 + part)
}

/// The point a fraction `t` of the way from `a` to `b`.
pub fn lerp_vec2(a: Vector2, b: Vector2, t: i32) -> (r: Vector2)
    ensures
        r.x == saturate(a.x + quotient((b.x - a.x) * t, UNIT as int)),
        r.y == saturate(a.y + quotient((b.y - a.y) * t, UNIT as int)),
{
    Vector2 { x: lerp(a.x, b.x, t), y: lerp(a.y, b.y, t) }
}

/// The distance between two points, rounded down.
pub fn distance(a: Vector2, b: Vector2) -> (d: i64)
    ensures
        d == root(a.gap_squared(b)),
{
    wide_root(a.distance_squared(b) as u128) as i64
}

/// Whether two values differ by less than `epsilon`.
pub fn approx_eq(a: i32, b: i32, epsilon: i32) -> (near: bool)
    ensures
        near == (crate::math::magnitude(a - b) < epsilon),
{
    let d: i64 = a as i64 - b as i64;
    let m: i64 = if d >= 0 {
        d
    } else {
        -d
    };
    m < epsilon as i64
}

/// The square of the distance between two points.
pub fn distance_squared(a: Vector2, b: Vector2) -> (d: i128)
    ensures
        d == a.gap_squared(b),
{
    a.distance_squared(b)
}

/// A quotient by a positive divisor is no farther from zero than the
/// dividend.
pub proof fn lemma_quotient_bounded(a: int, b: int)
    requires
        b > 0,
    ensures
        crate::math::magnitude(quotient(a, b)) <= crate::math::magnitude(a),
        a >= 0 ==> 0 <= quotient(a, b) <= a,
        a <= 0 ==> a <= quotient(a, b) <= 0,
{
    if a >= 0 {
        assert(0 <= a / b <= a) by (nonlinear_arith)
            requires
                a >= 0,
                b > 0,
        ;
    } else {
        assert(0 <= (-a) / b <= -a) by (nonlinear_arith)
            requires
                a < 0,
                b > 0,
        ;
    }
}

} // verus!
