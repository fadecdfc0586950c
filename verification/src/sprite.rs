//! What is drawn for an entity: a texture by name, where and how large, and
//! the animation that picks the part of the texture to show.

use vstd::prelude::*;
use crate::config::UNIT;
use crate::math::{divide, multiply, quotient, saturate, saturate_to_i32, Rect, Vector2};

pub mod animations;
pub mod picture;

verus! {

/// One frame of an animation.
#[derive(Debug, Clone, Copy, PartialEq, Eq, Structural)]
pub struct AnimationFrame {
    /// The part of the texture that the frame shows.
    pub source_rect: Rect,
    /// How long the frame is shown, in ticks.
    pub duration: u32,
}

/// A sequence of frames and the place reached in it.
#[derive(Debug, Clone)]
pub struct Animation {
    /// The frames in the order in which they are shown.
    pub frames: Vec<AnimationFrame>,
    /// Whether the first frame follows the last.
    pub loops: bool,
    /// The index of the frame that is shown.
    pub current_frame: usize,
    /// The ticks for which the frame has been shown.
    pub frame_time: u32,
}

/// The frame `i` of a sheet of frames laid side by side.
pub open spec fn sheet_frame(i: int, frame_width: i32, frame_height: i32, duration: u32) -> AnimationFrame {
    AnimationFrame {
        source_rect: Rect {
            x: saturate(i * frame_width) as i32,
            y: 0,
            width: frame_width,
            height: frame_height,
        },
        duration,
    }
}

impl Animation {
    /// The frame shown is one of the frames, where there are any.
    pub open spec fn wf(&self) -> bool {
        self.frames@.len() == 0 || self.current_frame < self.frames@.len()
    }

    /// An animation at its first frame.
    pub fn new(frames: Vec<AnimationFrame>, loops: bool) -> (a: Self)
        ensures
            a.frames == frames,
            a.loops == loops,
            a.current_frame == 0,
            a.frame_time == 0,
            a.wf(),
    {
        Self { frames, loops, current_frame: 0, frame_time: 0 }
    }

    /// An animation over `frame_count` frames of one size that lie side by
    /// side in the top row of a texture, each shown for `frame_duration`
    /// ticks.
    pub fn from_sprite_sheet(
        frame_width: i32,
        frame_height: i32,
        frame_count: usize,
        frame_duration: u32,
        loops: bool,
    ) -> (a: Self)
        ensures
            a.frames@.len() == frame_count,
            forall|i: int|
                0 <= i < frame_count ==> a.frames@[i] == sheet_frame(
                    i,
                    frame_width,
                    frame_height,
                    frame_duration,
                ),
            a.loops == loops,
            a.current_frame == 0,
            a.frame_time == 0,
            a.wf(),
    {
        let mut frames: Vec<AnimationFrame> = Vec::new();
        let mut i: usize = 0;
        while i < frame_count
            invariant
                i <= frame_count,
                frames@.len() == i,
                forall|k: int|
                    0 <= k < i ==> frames@[k] == sheet_frame(
                        k,
                        frame_width,
                        frame_height,
                        frame_duration,
                    ),
            decreases frame_count - i,
        {
            assert(-0x8000_0000_0000_0000_0000_0000 <= (i as int) * (frame_width as int)
                <= 0x8000_0000_0000_0000_0000_0000) by (nonlinear_arith)
                requires
                    0 <= i <= 0xffff_ffff_ffff_ffff,
                    -0x8000_0000 <= frame_width <= 0x8000_0000,
            ;
            let x: i128 = (i as i128) * (frame_width as i128);
            frames.push(
                AnimationFrame {
                    source_rect: Rect::new(saturate_to_i32(x), 0, frame_width, frame_height),
                    duration: frame_duration,
                },
            );
            i += 1;
        }
        Self::new(frames, loops)
    }

    /// The animation `delta_time` ticks later. When the frame has been
    /// shown for its duration, the next frame is shown and the time beyond
    /// the duration counts toward it; after the last frame comes the first
    /// where the animation loops, and the last stays where it does not. An
    /// animation without frames, or at no frame of its own, stays as it
    /// is.
    pub open spec fn stepped(self, delta_time: u32) -> Self {
        if self.current_frame < self.frames@.len() {
            let length = self.frames@.len() as int;
            let time = saturate_ticks(self.frame_time + delta_time);
            let due = self.frames@[self.current_frame as int].duration as int;
            if time >= due {
                Animation {
                    frame_time: (time - due) as u32,
                    current_frame: if self.current_frame + 1 < length {
                        (self.current_frame + 1) as usize
                    } else if self.loops {
                        0
                    } else {
                        (length - 1) as usize
                    },
                    ..self
                }
            } else {
                Animation { frame_time: time as u32, ..self }
            }
        } else {
            self
        }
    }

    /// Lets `delta_time` ticks pass: see `stepped`.
    pub fn update(&mut self, delta_time: u32)
        ensures
            *final(self) == old(self).stepped(delta_time),
            old(self).wf() ==> final(self).wf(),
    {
        if self.current_frame >= self.frames.len() {
            return ;
        }
        self.frame_time = self.frame_time.saturating_add(delta_time);
        let current_frame_duration = self.frames[self.current_frame].duration;
        if self.frame_time >= current_frame_duration {
            self.frame_time -= current_frame_duration;
            self.current_frame += 1;
            if self.current_frame >= self.frames.len() {
                if self.loops {
                    self.current_frame = 0;
                } else {
                    self.current_frame = self.frames.len() - 1;
                }
            }
        }
    }

    /// The frame that is shown; `None` where there is none.
    pub fn current_frame(&self) -> (frame: Option<&AnimationFrame>)
        ensures
            match frame {
                Some(f) => self.current_frame < self.frames@.len() && *f
                    == self.frames@[self.current_frame as int],
                None => self.current_frame >= self.frames@.len(),
            },
    {
        if self.current_frame < self.frames.len() {
            Some(&self.frames[self.current_frame])
        } else {
            None
        }
    }

    /// Goes back to the first frame.
    pub fn reset(&mut self)
        ensures
            final(self).frames == old(self).frames,
            final(self).loops == old(self).loops,
            final(self).current_frame == 0,
            final(self).frame_time == 0,
            final(self).wf(),
    {
        self.current_frame = 0;
        self.frame_time = 0;
    }

    /// Whether an animation that does not loop has reached its last frame.
    pub fn is_finished(&self) -> (finished: bool)
        ensures
            finished == (!self.loops && self.current_frame + 1 >= self.frames@.len()),
    {
        !self.loops && self.current_frame >= self.frames.len().saturating_sub(1)
    }
}

/// A count of ticks held in 32 bits.
pub open spec fn saturate_ticks(v: int) -> int {
    if v > u32::MAX as int {
        u32::MAX as int
    } else {
        v
    }
}

/// One extent of a sprite as it is drawn: the extent times the scale.
pub open spec fn scaled(extent: int, scale: int) -> int {
    saturate(quotient(extent * scale, UNIT as int))
}

/// One extent times a scale.
pub fn scale_extent(extent: i32, scale: i32) -> (r: i32)
    ensures
        r == scaled(extent as int, scale as int),
{
    saturate_to_i32(divide(multiply(extent as i64, scale as i64), UNIT as i128))
}

/// A texture, where and how it is drawn, and what part of it.
#[derive(Debug, Clone)]
pub struct Sprite {
    /// The name under which the texture is known.
    pub texture_name: String,
    /// Position in the world.
    pub position: Vector2,
    /// Extent.
    pub size: Vector2,
    /// The animation, where the sprite has one.
    pub animation: Option<Animation>,
    /// The part of the texture shown where the sprite has no animation.
    pub source_rect: Option<Rect>,
    /// Whether the sprite is drawn.
    pub visible: bool,
    /// Rotation in degrees.
    pub rotation: i32,
    /// Scale along each axis.
    pub scale: Vector2,
    /// Whether the sprite is mirrored left to right.
    pub flip_horizontal: bool,
    /// Whether the sprite is mirrored top to bottom.
    pub flip_vertical: bool,
}

impl Sprite {
    /// The animation, where there is one, is well formed.
    pub open spec fn wf(&self) -> bool {
        self.animation is Some ==> self.animation->0.wf()
    }

    /// A visible sprite of the given size that shows the whole texture as
    /// it is.
    pub open spec fn plain(texture_name: String, position: Vector2, size: Vector2) -> Self {
        Sprite {
            texture_name,
            position,
            size,
            animation: None,
            source_rect: None,
            visible: true,
            rotation: 0,
            scale: Vector2 { x: UNIT, y: UNIT },
            flip_horizontal: false,
            flip_vertical: false,
        }
    }

    /// A visible sprite 32 units wide and high, drawn as it is.
    pub fn new(texture_name: String, position: Vector2) -> (s: Self)
        ensures
            s == Self::plain(texture_name, position, Vector2 { x: 32000, y: 32000 }),
    {
        Self {
            texture_name,
            position,
            size: Vector2::new(32000, 32000),
            animation: None,
            source_rect: None,
            visible: true,
            rotation: 0,
            scale: Vector2::new(UNIT, UNIT),
            flip_horizontal: false,
            flip_vertical: false,
        }
    }

    /// A sprite of the given size.
    pub fn with_size(texture_name: String, position: Vector2, size: Vector2) -> (s: Self)
        ensures
            s == Self::plain(texture_name, position, size),
    {
        let mut sprite = Self::new(texture_name, position);
        sprite.size = size;
        sprite
    }

    /// Gives the sprite an animation.
    pub fn set_animation(&mut self, animation: Animation)
        ensures
            *final(self) == (Sprite { animation: Some(animation), ..*old(self) }),
    {
        self.animation = Some(animation);
    }

    /// Shows a fixed part of the texture; the animation goes.
    pub fn set_source_rect(&mut self, rect: Rect)
        ensures
            *final(self) == (Sprite { animation: None, source_rect: Some(rect), ..*old(self) }),
    {
        self.source_rect = Some(rect);
        self.animation = None;
    }

    /// The sprite `delta_time` ticks later: its animation moves on.
    pub open spec fn updated(self, delta_time: u32) -> Self {
        match self.animation {
            Some(a) => Sprite { animation: Some(a.stepped(delta_time)), ..self },
            None => self,
        }
    }

    /// Lets `delta_time` ticks pass: see `updated`.
    pub fn update(&mut self, delta_time: u32)
        ensures
            *final(self) == old(self).updated(delta_time),
    {
        match &mut self.animation {
            Some(animation) => {
                animation.update(delta_time);
            },
            None => {},
        }
    }

    /// The part of the texture that is shown: the current frame of the
    /// animation where there is one, else the fixed part.
    pub fn get_source_rect(&self) -> (rect: Option<Rect>)
        ensures
            rect == match self.animation {
                Some(a) => if a.current_frame < a.frames@.len() {
                    Some(a.frames@[a.current_frame as int].source_rect)
                } else {
                    None
                },
                None => self.source_rect,
            },
    {
        match &self.animation {
            Some(animation) => match animation.current_frame() {
                Some(frame) => Some(frame.source_rect),
                None => None,
            },
            None => self.source_rect,
        }
    }

    /// Where the sprite is drawn: at its position, with its size times its
    /// scale.
    pub fn get_dest_rect(&self) -> (rect: Rect)
        ensures
            rect == (Rect {
                x: self.position.x,
                y: self.position.y,
                width: scaled(self.size.x as int, self.scale.x as int) as i32,
                height: scaled(self.size.y as int, self.scale.y as int) as i32,
            }),
    {
        Rect::new(
            self.position.x,
            self.position.y,
            scale_extent(self.size.x, self.scale.x),
            scale_extent(self.size.y, self.scale.y),
        )
    }
}

} // verus!
