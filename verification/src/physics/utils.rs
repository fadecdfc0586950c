//! Formulas of platformer mechanics.

use vstd::prelude::*;
use crate::collision::ray::{integer_root, root};
use crate::config::{TICKS_PER_SECOND, UNIT};
use crate::math::{divide, magnitude, multiply, quotient, saturate, saturate_to_i32, Vector2};
use crate::physics::{mass_of, saturate_wide};

verus! {

/// A quotient is no farther from zero than its dividend.
pub proof fn lemma_quotient_no_larger(a: int, b: int)
    requires
        b != 0,
    ensures
        magnitude(quotient(a, b)) <= magnitude(a),
{
    if b > 0 {
        crate::math::utils::lemma_quotient_bounded(a, b);
    } else {
        crate::math::utils::lemma_quotient_bounded(a, -b);
        crate::math::utils::lemma_quotient_bounded(-a, -b);
    }
}

/// Narrows a wide result to an `i64`.
pub fn saturate_to_i64(v: i128) -> (r: i64)
    ensures
        r == saturate_wide(v as int),
{
    if v < -0x8000_0000_0000_0000 {
        -0x8000_0000_0000_0000
    } else if v > 0x7fff_ffff_ffff_ffff {
        0x7fff_ffff_ffff_ffff
    } else {
        v as i64
    }
}

/// The mass of a body of the given size and density: the area times the
/// density.
pub fn calculate_mass(size: Vector2, density: i32) -> (mass: i64)
    ensures
        mass == mass_of(size, density as int),
{
    let area: i128 = multiply(size.x as i64, size.y as i64);
    assert(-0x4000_0000_0000_0000 <= area <= 0x4000_0000_0000_0000) by (nonlinear_arith)
        requires
            area == (size.x as int) * (size.y as int),
            -0x8000_0000 <= size.x <= 0x7fff_ffff,
            -0x8000_0000 <= size.y <= 0x7fff_ffff,
    ;
    let product: i128 = multiply(area as i64, density as i64);
    assert(size.x * size.y * density == product) by (nonlinear_arith)
        requires
            product == area * (density as int),
            area == (size.x as int) * (size.y as int),
    ;
    saturate_to_i64(divide(product, 1000000))
}

/// The impulse that takes a body of the given mass from one velocity to
/// another: the change of velocity times the mass, each component saturating.
pub fn impulse_for_velocity(current_velocity: Vector2, target_velocity: Vector2, mass: i64) -> (impulse:
    Vector2)
    ensures
        impulse.x == saturate(
            quotient((target_velocity.x - current_velocity.x) * mass, UNIT as int),
        ),
        impulse.y == saturate(
            quotient((target_velocity.y - current_velocity.y) * mass, UNIT as int),
        ),
{
    Vector2 {
        x: scale_by_mass(target_velocity.x as i64 - current_velocity.x as i64, mass),
        y: scale_by_mass(target_velocity.y as i64 - current_velocity.y as i64, mass),
    }
}

/// The force that gives a body of the given mass the given acceleration:
/// the acceleration times the mass, each component saturating.
pub fn force_for_acceleration(acceleration: Vector2, mass: i64) -> (force: Vector2)
    ensures
        force.x == saturate(quotient(acceleration.x * mass, UNIT as int)),
        force.y == saturate(quotient(acceleration.y * mass, UNIT as int)),
{
    Vector2 {
        x: scale_by_mass(acceleration.x as i64, mass),
        y: scale_by_mass(acceleration.y as i64, mass),
    }
}

/// A fixed-point number times a mass.
fn scale_by_mass(value: i64, mass: i64) -> (r: i32)
    requires
        -0x1_0000_0000 <= value <= 0x1_0000_0000,
    ensures
        r == saturate(quotient(value * mass, UNIT as int)),
{
    let product: i128 = multiply(value, mass);
    saturate_to_i32(divide(product, UNIT as i128))
}

/// The speed with which to leave the ground to rise to `height` under
/// `gravity`: the root of twice their product, rounded down.
pub fn jump_velocity_for_height(height: i32, gravity: i32) -> (speed: i32)
    requires
        height >= 0,
        gravity >= 0,
    ensures
        speed == saturate(root(2 * (height * gravity))),
{
    let product: i128 = multiply(height as i64, gravity as i64);
    assert(0 <= product <= 0x4000_0000_0000_0000) by (nonlinear_arith)
        requires
            product == (height as int) * (gravity as int),
            0 <= height <= 0x7fff_ffff,
            0 <= gravity <= 0x7fff_ffff,
    ;
    saturate_to_i32(integer_root((2 * product) as u64) as i128)
}

/// The time it takes to fall `distance` from rest under `gravity`, in
/// ticks, rounded down.
pub fn fall_time(distance: i32, gravity: i32) -> (ticks: u32)
    requires
        distance >= 0,
        gravity > 0,
    ensures
        ticks == root(
            quotient(
                2 * distance * (TICKS_PER_SECOND as int) * (TICKS_PER_SECOND as int),
                gravity as int,
            ),
        ),
{
    let scaled: i128 = multiply(2 * (distance as i64), 3600000000);
    assert(2 * distance * (TICKS_PER_SECOND as int) * (TICKS_PER_SECOND as int) == scaled)
        by (nonlinear_arith)
        requires
            scaled == (2 * distance) * 3600000000,
            TICKS_PER_SECOND == 60000,
    ;
    assert(0 <= scaled <= 0xffff_ffff_ffff_ffff) by (nonlinear_arith)
        requires
            scaled == (2 * distance) * 3600000000,
            0 <= distance <= 0x7fff_ffff,
    ;
    let ratio: i128 = divide(scaled, gravity as i128);
    proof {
        crate::math::utils::lemma_quotient_bounded(scaled as int, gravity as int);
    }
    let ticks: u64 = integer_root(ratio as u64);
    ticks as u32
}

/// How far a jump carries: the horizontal speed for the time it takes to
/// rise and to come down again, which is twice the vertical speed over the
/// gravity.
pub fn jump_distance(initial_velocity: Vector2, gravity: i32) -> (distance: i32)
    requires
        gravity != 0,
    ensures
        distance == saturate(
            quotient(2 * (initial_velocity.x * initial_velocity.y), gravity as int),
        ),
{
    let product: i128 = multiply(initial_velocity.x as i64, initial_velocity.y as i64);
    assert(-0x4000_0000_0000_0000 <= product <= 0x4000_0000_0000_0000) by (nonlinear_arith)
        requires
            product == (initial_velocity.x as int) * (initial_velocity.y as int),
            -0x8000_0000 <= initial_velocity.x <= 0x7fff_ffff,
            -0x8000_0000 <= initial_velocity.y <= 0x7fff_ffff,
    ;
    saturate_to_i32(divide(2 * product, gravity as i128))
}

} // verus!
