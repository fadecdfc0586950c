//! Points and rectangles.

use vstd::prelude::*;
use crate::math::utils::clamped;
use crate::math::{lesser, saturate, saturate_to_i32, Rect, Vector2};

verus! {

/// Whether a point lies in a rectangle, edges included.
pub fn point_in_rect(point: Vector2, rect: &Rect) -> (inside: bool)
    ensures
        inside == rect.holds_point(point),
{
    rect.contains_point(point)
}

/// The point of a rectangle nearest to a given point: each coordinate held
/// between the edges, and saturating.
pub fn closest_point_on_rect(point: Vector2, rect: &Rect) -> (nearest: Vector2)
    ensures
        nearest.x == saturate(clamped(point.x as int, rect.left_edge(), rect.right_edge())),
        nearest.y == saturate(clamped(point.y as int, rect.top_edge(), rect.bottom_edge())),
{
    let x: i64 = if (point.x as i64) < rect.left() {
        rect.left()
    } else if point.x as i64 > rect.right() {
        rect.right()
    } else {
        point.x as i64
    };
    let y: i64 = if (point.y as i64) < rect.top() {
        rect.top()
    } else if point.y as i64 > rect.bottom() {
        rect.bottom()
    } else {
        point.y as i64
    };
    Vector2 { x: saturate_to_i32(x as i128), y: saturate_to_i32(y as i128) }
}

/// How far two rectangles overlap along the horizontal axis: the lesser of
/// the two ways out.
pub open spec fn overlap_x(a: Rect, b: Rect) -> int {
    lesser(a.right_edge() - b.left_edge(), b.right_edge() - a.left_edge())
}

/// How far two rectangles overlap along the vertical axis.
pub open spec fn overlap_y(a: Rect, b: Rect) -> int {
    lesser(a.bottom_edge() - b.top_edge(), b.bottom_edge() - a.top_edge())
}

/// The shortest way by which to move the first rectangle so that the two
/// no longer overlap: along the axis of the lesser overlap, away from the
/// midpoint of the second; up or down where the overlaps are equal.
pub open spec fn shortest_way_out(a: Rect, b: Rect) -> Option<Vector2> {
    if !a.overlaps(b) {
        None
    } else if overlap_x(a, b) < overlap_y(a, b) {
        Some(
            Vector2 {
                x: if 2 * a.x + a.width < 2 * b.x + b.width {
                    saturate(-overlap_x(a, b)) as i32
                } else {
                    saturate(overlap_x(a, b)) as i32
                },
                y: 0,
            },
        )
    } else {
        Some(
            Vector2 {
                x: 0,
                y: if 2 * a.y + a.height < 2 * b.y + b.height {
                    saturate(-overlap_y(a, b)) as i32
                } else {
                    saturate(overlap_y(a, b)) as i32
                },
            },
        )
    }
}

/// The shortest way by which to move `rect1` out of `rect2`: see
/// `shortest_way_out`. `None` where the two do not overlap.
pub fn minimum_translation_vector(rect1: &Rect, rect2: &Rect) -> (way: Option<Vector2>)
    ensures
        way == shortest_way_out(*rect1, *rect2),
{
    if !rect1.intersects(rect2) {
        return None;
    }
    let right_way: i64 = rect1.right() - rect2.left();
    let left_way: i64 = rect2.right() - rect1.left();
    let over_x: i64 = if right_way <= left_way {
        right_way
    } else {
        left_way
    };
    let down_way: i64 = rect1.bottom() - rect2.top();
    let up_way: i64 = rect2.bottom() - rect1.top();
    let over_y: i64 = if down_way <= up_way {
        down_way
    } else {
        up_way
    };
    if over_x < over_y {
        let before: bool = 2 * (rect1.x as i64) + (rect1.width as i64) < 2 * (rect2.x as i64) + (
        rect2.width as i64);
        let x = if before {
            saturate_to_i32(-(over_x as i128))
        } else {
            saturate_to_i32(over_x as i128)
        };
        Some(Vector2 { x, y: 0 })
    } else {
        let before: bool = 2 * (rect1.y as i64) + (rect1.height as i64) < 2 * (rect2.y as i64) + (
        rect2.height as i64);
        let y = if before {
            saturate_to_i32(-(over_y as i128))
        } else {
            saturate_to_i32(over_y as i128)
        };
        Some(Vector2 { x: 0, y })
    }
}

} // verus!
