//! The animations that most sprites use.

use vstd::prelude::*;
use crate::math::Rect;
use crate::sprite::{sheet_frame, Animation, AnimationFrame};

verus! {

/// A single frame that is shown for a second at a time, over and over.
pub fn idle(source_rect: Rect) -> (a: Animation)
    ensures
        a.frames@ == seq![AnimationFrame { source_rect, duration: 60000 }],
        a.loops,
        a.current_frame == 0,
        a.frame_time == 0,
        a.wf(),
{
    let mut frames: Vec<AnimationFrame> = Vec::new();
    frames.push(AnimationFrame { source_rect, duration: 60000 });
    let a = Animation::new(frames, true);
    assert(a.frames@ =~= seq![AnimationFrame { source_rect, duration: 60000 }]);
    a
}

/// A walk over the frames of a sheet, a tenth of a second each, over and
/// over.
pub fn walk(frame_width: i32, frame_height: i32, frame_count: usize) -> (a: Animation)
    ensures
        a.frames@.len() == frame_count,
        forall|i: int|
            0 <= i < frame_count ==> a.frames@[i] == sheet_frame(i, frame_width, frame_height, 6000),
        a.loops,
        a.current_frame == 0,
        a.frame_time == 0,
        a.wf(),
{
    Animation::from_sprite_sheet(frame_width, frame_height, frame_count, 6000, true)
}

/// A single frame that is shown for half a second, once.
pub fn jump(source_rect: Rect) -> (a: Animation)
    ensures
        a.frames@ == seq![AnimationFrame { source_rect, duration: 30000 }],
        !a.loops,
        a.current_frame == 0,
        a.frame_time == 0,
        a.wf(),
{
    let mut frames: Vec<AnimationFrame> = Vec::new();
    frames.push(AnimationFrame { source_rect, duration: 30000 });
    let a = Animation::new(frames, false);
    assert(a.frames@ =~= seq![AnimationFrame { source_rect, duration: 30000 }]);
    a
}

} // verus!
