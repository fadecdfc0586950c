//! Volumes as people set them.

use vstd::prelude::*;
use crate::config::{TICKS_PER_SECOND, UNIT};
use crate::math::utils::clamped;
use crate::math::{divide, magnitude, multiply, quotient, saturate, saturate_to_i32};

verus! {

/// A volume from a percentage: a hundred and more is full.
pub fn volume_from_percentage(percentage: u8) -> (volume: i32)
    ensures
        volume == 10 * clamped(percentage as int, 0, 100),
{
    let held: i32 = if percentage > 100 {
        100
    } else {
        percentage as i32
    };
    held * 10
}

/// A volume as a percentage, rounded down.
pub fn volume_to_percentage(volume: i32) -> (percentage: u8)
    ensures
        percentage == clamped(volume as int, 0, UNIT as int) / 10,
{
    let held: i32 = if volume < 0 {
        0
    } else if volume > UNIT {
        UNIT
    } else {
        volume
    };
    (held / 10) as u8
}

/// The volume a step further on its way to a target: the target where it
/// is nearer than a hundredth, else nearer by the speed of the fade for
/// the time that passed, and not beyond the target.
pub open spec fn faded(current: int, target: int, fade_speed: int, delta_time: int) -> int {
    let step = quotient(fade_speed * delta_time, TICKS_PER_SECOND as int);
    if magnitude(current - target) < 10 {
        target
    } else if current < target {
        if current + step < target {
            saturate(current + step)
        } else {
            target
        }
    } else {
        if current - step > target {
            saturate(current - step)
        } else {
            target
        }
    }
}

/// Fades a volume toward a target: see `faded`.
pub fn apply_fade(current_volume: i32, target_volume: i32, fade_speed: i32, delta_time: u32) -> (volume:
    i32)
    ensures
        volume == faded(
            current_volume as int,
            target_volume as int,
            fade_speed as int,
            delta_time as int,
        ),
{
    let step: i128 = divide(
        multiply(fade_speed as i64, delta_time as i64),
        TICKS_PER_SECOND as i128,
    );
    proof {
        crate::math::utils::lemma_quotient_bounded(
            fade_speed * delta_time,
            TICKS_PER_SECOND as int,
        );
    }
    let gap: i64 = current_volume as i64 - target_volume as i64;
    let far: i64 = if gap >= 0 {
        gap
    } else {
        -gap
    };
    if far < 10 {
        target_volume
    } else if current_volume < target_volume {
        let next: i128 = current_volume as i128 + step;
        if next < target_volume as i128 {
            saturate_to_i32(next)
        } else {
            target_volume
        }
    } else {
        let next: i128 = current_volume as i128 - step;
        if next > target_volume as i128 {
            saturate_to_i32(next)
        } else {
            target_volume
        }
    }
}

} // verus!
