//! Entities and their components. An entity holds at most one component of
//! each kind; the components are plain values that the systems read and
//! change.

use vstd::prelude::*;
use crate::badguy::{Badguy, BadguyAI};
use crate::collision::CollisionLayer;
use crate::config::UNIT;
use crate::math::{saturate, saturate_to_i32, Rect, Vector2};
use crate::physics::BodyType;
use crate::sprite::{scale_extent, scaled, saturate_ticks, Sprite};
use crate::supertux::PlayerController;

pub mod factory;
pub mod manager;

pub use manager::{
    GameObjectManager, HealthSystem, PhysicsSyncSystem, SpriteRenderSystem, TimerSystem,
};


verus! {

/// The identity of an entity.
pub type ObjectId = u32;

/// Where an entity is, and how it is turned and scaled.
#[derive(Debug, Clone, Copy, PartialEq, Eq, Structural)]
pub struct Transform {
    pub position: Vector2,
    /// Rotation in degrees.
    pub rotation: i32,
    pub scale: Vector2,
}

impl Transform {
    /// At `position`, not turned, at scale one.
    pub fn new(position: Vector2) -> (t: Self)
        ensures
            t == (Transform { position, rotation: 0, scale: Vector2 { x: UNIT, y: UNIT } }),
    {
        Self { position, rotation: 0, scale: Vector2::new(UNIT, UNIT) }
    }

    /// The same with another scale.
    pub fn with_scale(self, scale: Vector2) -> (t: Self)
        ensures
            t == (Transform { scale, ..self }),
    {
        let mut t = self;
        t.scale = scale;
        t
    }

    /// The same with another rotation.
    pub fn with_rotation(self, rotation: i32) -> (t: Self)
        ensures
            t == (Transform { rotation, ..self }),
    {
        let mut t = self;
        t.rotation = rotation;
        t
    }
}

/// What is drawn for an entity.
#[derive(Debug, Clone)]
pub struct SpriteComponent {
    pub sprite: Sprite,
    pub visible: bool,
    /// Sprites on a higher layer are drawn over those on a lower one.
    pub layer: i32,
}

impl SpriteComponent {
    /// Visible, on layer zero.
    pub fn new(sprite: Sprite) -> (c: Self)
        ensures
            c == (SpriteComponent { sprite, visible: true, layer: 0 }),
    {
        Self { sprite, visible: true, layer: 0 }
    }

    /// The same on another layer.
    pub fn with_layer(self, layer: i32) -> (c: Self)
        ensures
            c == (SpriteComponent { layer, ..self }),
    {
        let mut c = self;
        c.layer = layer;
        c
    }
}

/// The body that moves an entity.
#[derive(Debug, Clone, Copy, PartialEq, Eq, Structural)]
pub struct PhysicsComponent {
    pub body_id: u32,
    pub body_type: BodyType,
    pub collision_layer: CollisionLayer,
}

impl PhysicsComponent {
    /// A reference to the body with the given id.
    pub fn new(body_id: u32, body_type: BodyType, collision_layer: CollisionLayer) -> (c: Self)
        ensures
            c == (PhysicsComponent { body_id, body_type, collision_layer }),
    {
        Self { body_id, body_type, collision_layer }
    }
}

/// How much damage an entity can still take.
#[derive(Debug, Clone, Copy, PartialEq, Eq, Structural)]
pub struct Health {
    pub current: i32,
    pub maximum: i32,
    /// While this is set, damage has no effect.
    pub invulnerable: bool,
    /// Ticks for which the entity stays invulnerable.
    pub invulnerability_time: u32,
}

impl Health {
    /// After damage: the health that is left, and never less than none.
    /// Damage to an invulnerable entity changes nothing.
    pub open spec fn damaged(self, damage: i32) -> Self {
        if self.invulnerable {
            self
        } else {
            Health {
                current: if self.current - damage < 0 {
                    0
                } else {
                    saturate(self.current - damage) as i32
                },
                ..self
            }
        }
    }

    /// After healing: the health that was there and the amount, and never
    /// more than the maximum.
    pub open spec fn healed(self, amount: i32) -> Self {
        Health {
            current: if self.current + amount > self.maximum {
                self.maximum
            } else {
                saturate(self.current + amount) as i32
            },
            ..self
        }
    }

    /// After `delta_time` ticks: the time of invulnerability runs down, and
    /// invulnerability ends with it. Invulnerability without a time set
    /// lasts.
    pub open spec fn aged(self, delta_time: u32) -> Self {
        if self.invulnerable && self.invulnerability_time > 0 {
            if self.invulnerability_time > delta_time {
                Health {
                    invulnerability_time: (self.invulnerability_time - delta_time) as u32,
                    ..self
                }
            } else {
                Health { invulnerability_time: 0, invulnerable: false, ..self }
            }
        } else {
            self
        }
    }

    /// Full health, vulnerable.
    pub fn new(max_health: i32) -> (h: Self)
        ensures
            h == (Health {
                current: max_health,
                maximum: max_health,
                invulnerable: false,
                invulnerability_time: 0,
            }),
    {
        Self { current: max_health, maximum: max_health, invulnerable: false, invulnerability_time: 0 }
    }

    /// Takes damage, unless invulnerable; says whether the damage was
    /// taken.
    pub fn take_damage(&mut self, damage: i32) -> (taken: bool)
        ensures
            taken == !old(self).invulnerable,
            *final(self) == old(self).damaged(damage),
    {
        if !self.invulnerable {
            let left: i64 = self.current as i64 - damage as i64;
            self.current = if left < 0 {
                0
            } else {
                saturate_to_i32(left as i128)
            };
            return true;
        }
        false
    }

    /// Heals by `amount`, up to the maximum.
    pub fn heal(&mut self, amount: i32)
        ensures
            *final(self) == old(self).healed(amount),
    {
        let sum: i64 = self.current as i64 + amount as i64;
        self.current = if sum > self.maximum as i64 {
            self.maximum
        } else {
            saturate_to_i32(sum as i128)
        };
    }

    /// Lets `delta_time` ticks pass: see `aged`.
    pub fn update(&mut self, delta_time: u32)
        ensures
            *final(self) == old(self).aged(delta_time),
    {
        if self.invulnerable && self.invulnerability_time > 0 {
            if self.invulnerability_time > delta_time {
                self.invulnerability_time = self.invulnerability_time - delta_time;
            } else {
                self.invulnerability_time = 0;
                self.invulnerable = false;
            }
        }
    }

    /// Whether any health is left.
    pub fn is_alive(&self) -> (alive: bool)
        ensures
            alive == (self.current > 0),
    {
        self.current > 0
    }

    /// Whether no health is left.
    pub fn is_dead(&self) -> (dead: bool)
        ensures
            dead == (self.current <= 0),
    {
        self.current <= 0
    }
}

/// Something that can be picked up, once.
#[derive(Debug, Clone, Copy, PartialEq, Eq, Structural)]
pub struct Collectible {
    pub value: i32,
    pub collected: bool,
    /// Whether a touch collects it.
    pub auto_collect: bool,
}

impl Collectible {
    /// Not yet collected, collected on touch.
    pub fn new(value: i32) -> (c: Self)
        ensures
            c == (Collectible { value, collected: false, auto_collect: true }),
    {
        Self { value, collected: false, auto_collect: true }
    }

    /// Collects it: gives its value the first time, and nothing after.
    pub fn collect(&mut self) -> (gain: i32)
        ensures
            gain == if old(self).collected {
                0
            } else {
                old(self).value
            },
            *final(self) == (Collectible { collected: true, ..*old(self) }),
    {
        if !self.collected {
            self.collected = true;
            self.value
        } else {
            0
        }
    }
}

/// A span of time that runs out.
#[derive(Debug, Clone, Copy, PartialEq, Eq, Structural)]
pub struct Timer {
    /// The span, in ticks.
    pub duration: u32,
    /// The ticks that have passed of it.
    pub elapsed: u32,
    /// Whether the timer starts over when it runs out.
    pub repeating: bool,
    /// Whether the timer runs.
    pub active: bool,
}

impl Timer {
    /// After `delta_time` ticks. A timer that runs counts them; when the
    /// span is over, a repeating timer starts again from nothing and any
    /// other stops. A timer that does not run stays as it is.
    pub open spec fn ticked(self, delta_time: u32) -> Self {
        if !self.active {
            self
        } else {
            let elapsed = saturate_ticks(self.elapsed + delta_time) as u32;
            if elapsed >= self.duration {
                if self.repeating {
                    Timer { elapsed: 0, ..self }
                } else {
                    Timer { elapsed, active: false, ..self }
                }
            } else {
                Timer { elapsed, ..self }
            }
        }
    }

    /// Whether the span is over after `delta_time` more ticks of a running
    /// timer.
    pub open spec fn rings(self, delta_time: u32) -> bool {
        self.active && saturate_ticks(self.elapsed + delta_time) >= self.duration
    }

    /// A running timer over `duration` ticks that does not repeat.
    pub fn new(duration: u32) -> (t: Self)
        ensures
            t == (Timer { duration, elapsed: 0, repeating: false, active: true }),
    {
        Self { duration, elapsed: 0, repeating: false, active: true }
    }

    /// The same timer, repeating.
    pub fn repeating(self) -> (t: Self)
        ensures
            t == (Timer { repeating: true, ..self }),
    {
        let mut t = self;
        t.repeating = true;
        t
    }

    /// Lets `delta_time` ticks pass; says whether the span ran out with
    /// them.
    pub fn update(&mut self, delta_time: u32) -> (rang: bool)
        ensures
            rang == old(self).rings(delta_time),
            *final(self) == old(self).ticked(delta_time),
    {
        if !self.active {
            return false;
        }
        self.elapsed = self.elapsed.saturating_add(delta_time);
        if self.elapsed >= self.duration {
            if self.repeating {
                self.elapsed = 0;
            } else {
                self.active = false;
            }
            return true;
        }
        false
    }

    /// Starts the timer from nothing.
    pub fn reset(&mut self)
        ensures
            *final(self) == (Timer { elapsed: 0, active: true, ..*old(self) }),
    {
        self.elapsed = 0;
        self.active = true;
    }

    /// The part of the span that has passed, as a fixed-point fraction of
    /// at most one; one for a span of no length.
    pub fn progress(&self) -> (part: i32)
        ensures
            part == if self.duration > 0 {
                if self.elapsed >= self.duration {
                    UNIT as int
                } else {
                    (self.elapsed * UNIT) / (self.duration as int)
                }
            } else {
                UNIT as int
            },
    {
        if self.duration > 0 {
            if self.elapsed >= self.duration {
                UNIT
            } else {
                let scaled: u64 = self.elapsed as u64 * UNIT as u64;
                let part: u64 = scaled / self.duration as u64;
                assert(part < UNIT) by (nonlinear_arith)
                    requires
                        part == (self.elapsed * UNIT) / (self.duration as int),
                        0 <= self.elapsed < self.duration,
                        UNIT > 0,
                ;
                part as i32
            }
        } else {
            UNIT
        }
    }
}

/// The kinds of component.
#[derive(Debug, Clone, Copy, PartialEq, Eq, Hash, Structural)]
pub enum ComponentKind {
    Transform,
    Sprite,
    Physics,
    Health,
    Collectible,
    Timer,
    BadguyAI,
    Badguy,
    PlayerController,
}

impl ComponentKind {
    /// The place of the kind in the order in which the kinds are declared.
    pub open spec fn ordinal(self) -> int {
        match self {
            ComponentKind::Transform => 0,
            ComponentKind::Sprite => 1,
            ComponentKind::Physics => 2,
            ComponentKind::Health => 3,
            ComponentKind::Collectible => 4,
            ComponentKind::Timer => 5,
            ComponentKind::BadguyAI => 6,
            ComponentKind::Badguy => 7,
            ComponentKind::PlayerController => 8,
        }
    }

    /// The place of the kind in the order in which the kinds are declared.
    pub fn index(self) -> (i: usize)
        ensures
            i == self.ordinal(),
    {
        match self {
            ComponentKind::Transform => 0,
            ComponentKind::Sprite => 1,
            ComponentKind::Physics => 2,
            ComponentKind::Health => 3,
            ComponentKind::Collectible => 4,
            ComponentKind::Timer => 5,
            ComponentKind::BadguyAI => 6,
            ComponentKind::Badguy => 7,
            ComponentKind::PlayerController => 8,
        }
    }
}

/// A component of any kind.
#[derive(Debug, Clone)]
pub enum ComponentValue {
    Transform(Transform),
    Sprite(SpriteComponent),
    Physics(PhysicsComponent),
    Health(Health),
    Collectible(Collectible),
    Timer(Timer),
    BadguyAI(BadguyAI),
    Badguy(Badguy),
    PlayerController(PlayerController),
}

impl ComponentValue {
    /// The kind of the component.
    pub open spec fn kind(self) -> ComponentKind {
        match self {
            ComponentValue::Transform(_) => ComponentKind::Transform,
            ComponentValue::Sprite(_) => ComponentKind::Sprite,
            ComponentValue::Physics(_) => ComponentKind::Physics,
            ComponentValue::Health(_) => ComponentKind::Health,
            ComponentValue::Collectible(_) => ComponentKind::Collectible,
            ComponentValue::Timer(_) => ComponentKind::Timer,
            ComponentValue::BadguyAI(_) => ComponentKind::BadguyAI,
            ComponentValue::Badguy(_) => ComponentKind::Badguy,
            ComponentValue::PlayerController(_) => ComponentKind::PlayerController,
        }
    }

    /// The kind of the component.
    pub fn kind_of(&self) -> (kind: ComponentKind)
        ensures
            kind == self.kind(),
    {
        match self {
            ComponentValue::Transform(_) => ComponentKind::Transform,
            ComponentValue::Sprite(_) => ComponentKind::Sprite,
            ComponentValue::Physics(_) => ComponentKind::Physics,
            ComponentValue::Health(_) => ComponentKind::Health,
            ComponentValue::Collectible(_) => ComponentKind::Collectible,
            ComponentValue::Timer(_) => ComponentKind::Timer,
            ComponentValue::BadguyAI(_) => ComponentKind::BadguyAI,
            ComponentValue::Badguy(_) => ComponentKind::Badguy,
            ComponentValue::PlayerController(_) => ComponentKind::PlayerController,
        }
    }
}

/// What every type of component tells of itself: its kind, and how a value
/// of it is put into a component of any kind and found in one again.
pub trait Component: Sized {
    /// The kind of this type of component.
    spec fn kind() -> ComponentKind;

    /// The value as a component of any kind.
    spec fn wrap(self) -> ComponentValue;

    /// The value of this type that a component of any kind holds, if it is
    /// of this kind.
    spec fn peel(value: ComponentValue) -> Option<Self>;

    /// What was put in is found again, under the kind of the type.
    proof fn lemma_wrap_peel(c: Self)
        ensures
            Self::peel(c.wrap()) == Some(c),
            c.wrap().kind() == Self::kind(),
    ;

    /// A component holds a value of this type exactly when it is of the
    /// kind of the type, and is then that value put in.
    proof fn lemma_peel_wrap(value: ComponentValue)
        ensures
            Self::peel(value) is Some <==> value.kind() == Self::kind(),
            Self::peel(value) is Some ==> Self::peel(value)->0.wrap() == value,
    ;

    /// The kind of this type of component.
    fn kind_of() -> (kind: ComponentKind)
        ensures
            kind == Self::kind(),
    ;

    /// Puts the value into a component of any kind.
    fn into_value(self) -> (value: ComponentValue)
        ensures
            value == self.wrap(),
    ;

    /// The value of this type in a component, if it holds one.
    fn from_value(value: &ComponentValue) -> (part: Option<&Self>)
        ensures
            match part {
                Some(c) => Self::peel(*value) == Some(*c),
                None => Self::peel(*value) is None,
            },
    ;

    /// The value of this type in a component, to be changed in place.
    fn from_value_mut(value: &mut ComponentValue) -> (part: Option<&mut Self>)
        ensures
            match part {
                Some(c) => Self::peel(*old(value)) == Some(*c) && *final(value) == final(c).wrap(),
                None => Self::peel(*old(value)) is None && *final(value) == *old(value),
            },
    ;

    /// Takes the value of this type out of a component, if it holds one.
    fn take_value(value: ComponentValue) -> (part: Option<Self>)
        ensures
            part == Self::peel(value),
    ;
}

impl Component for Transform {
    open spec fn kind() -> ComponentKind {
        ComponentKind::Transform
    }

    open spec fn wrap(self) -> ComponentValue {
        ComponentValue::Transform(self)
    }

    open spec fn peel(value: ComponentValue) -> Option<Self> {
        match value {
            ComponentValue::Transform(c) => Some(c),
            _ => None,
        }
    }

    proof fn lemma_wrap_peel(c: Self) {
    }

    proof fn lemma_peel_wrap(value: ComponentValue) {
    }

    fn kind_of() -> (kind: ComponentKind) {
        ComponentKind::Transform
    }

    fn into_value(self) -> (value: ComponentValue) {
        ComponentValue::Transform(self)
    }

    fn from_value(value: &ComponentValue) -> (part: Option<&Self>) {
        match value {
            ComponentValue::Transform(c) => Some(c),
            _ => None,
        }
    }

    fn from_value_mut(value: &mut ComponentValue) -> (part: Option<&mut Self>) {
        match value {
            ComponentValue::Transform(c) => Some(c),
            _ => None,
        }
    }

    fn take_value(value: ComponentValue) -> (part: Option<Self>) {
        match value {
            ComponentValue::Transform(c) => Some(c),
            _ => None,
        }
    }
}


impl Component for SpriteComponent {
    open spec fn kind() -> ComponentKind {
        ComponentKind::Sprite
    }

    open spec fn wrap(self) -> ComponentValue {
        ComponentValue::Sprite(self)
    }

    open spec fn peel(value: ComponentValue) -> Option<Self> {
        match value {
            ComponentValue::Sprite(c) => Some(c),
            _ => None,
        }
    }

    proof fn lemma_wrap_peel(c: Self) {
    }

    proof fn lemma_peel_wrap(value: ComponentValue) {
    }

    fn kind_of() -> (kind: ComponentKind) {
        ComponentKind::Sprite
    }

    fn into_value(self) -> (value: ComponentValue) {
        ComponentValue::Sprite(self)
    }

    fn from_value(value: &ComponentValue) -> (part: Option<&Self>) {
        match value {
            ComponentValue::Sprite(c) => Some(c),
            _ => None,
        }
    }

    fn from_value_mut(value: &mut ComponentValue) -> (part: Option<&mut Self>) {
        match value {
            ComponentValue::Sprite(c) => Some(c),
            _ => None,
        }
    }

    fn take_value(value: ComponentValue) -> (part: Option<Self>) {
        match value {
            ComponentValue::Sprite(c) => Some(c),
            _ => None,
        }
    }
}


impl Component for PhysicsComponent {
    open spec fn kind() -> ComponentKind {
        ComponentKind::Physics
    }

    open spec fn wrap(self) -> ComponentValue {
        ComponentValue::Physics(self)
    }

    open spec fn peel(value: ComponentValue) -> Option<Self> {
        match value {
            ComponentValue::Physics(c) => Some(c),
            _ => None,
        }
    }

    proof fn lemma_wrap_peel(c: Self) {
    }

    proof fn lemma_peel_wrap(value: ComponentValue) {
    }

    fn kind_of() -> (kind: ComponentKind) {
        ComponentKind::Physics
    }

    fn into_value(self) -> (value: ComponentValue) {
        ComponentValue::Physics(self)
    }

    fn from_value(value: &ComponentValue) -> (part: Option<&Self>) {
        match value {
            ComponentValue::Physics(c) => Some(c),
            _ => None,
        }
    }

    fn from_value_mut(value: &mut ComponentValue) -> (part: Option<&mut Self>) {
        match value {
            ComponentValue::Physics(c) => Some(c),
            _ => None,
        }
    }

    fn take_value(value: ComponentValue) -> (part: Option<Self>) {
        match value {
            ComponentValue::Physics(c) => Some(c),
            _ => None,
        }
    }
}


impl Component for Health {
    open spec fn kind() -> ComponentKind {
        ComponentKind::Health
    }

    open spec fn wrap(self) -> ComponentValue {
        ComponentValue::Health(self)
    }

    open spec fn peel(value: ComponentValue) -> Option<Self> {
        match value {
            ComponentValue::Health(c) => Some(c),
            _ => None,
        }
    }

    proof fn lemma_wrap_peel(c: Self) {
    }

    proof fn lemma_peel_wrap(value: ComponentValue) {
    }

    fn kind_of() -> (kind: ComponentKind) {
        ComponentKind::Health
    }

    fn into_value(self) -> (value: ComponentValue) {
        ComponentValue::Health(self)
    }

    fn from_value(value: &ComponentValue) -> (part: Option<&Self>) {
        match value {
            ComponentValue::Health(c) => Some(c),
            _ => None,
        }
    }

    fn from_value_mut(value: &mut ComponentValue) -> (part: Option<&mut Self>) {
        match value {
            ComponentValue::Health(c) => Some(c),
            _ => None,
        }
    }

    fn take_value(value: ComponentValue) -> (part: Option<Self>) {
        match value {
            ComponentValue::Health(c) => Some(c),
            _ => None,
        }
    }
}


impl Component for Collectible {
    open spec fn kind() -> ComponentKind {
        ComponentKind::Collectible
    }

    open spec fn wrap(self) -> ComponentValue {
        ComponentValue::Collectible(self)
    }

    open spec fn peel(value: ComponentValue) -> Option<Self> {
        match value {
            ComponentValue::Collectible(c) => Some(c),
            _ => None,
        }
    }

    proof fn lemma_wrap_peel(c: Self) {
    }

    proof fn lemma_peel_wrap(value: ComponentValue) {
    }

    fn kind_of() -> (kind: ComponentKind) {
        ComponentKind::Collectible
    }

    fn into_value(self) -> (value: ComponentValue) {
        ComponentValue::Collectible(self)
    }

    fn from_value(value: &ComponentValue) -> (part: Option<&Self>) {
        match value {
            ComponentValue::Collectible(c) => Some(c),
            _ => None,
        }
    }

    fn from_value_mut(value: &mut ComponentValue) -> (part: Option<&mut Self>) {
        match value {
            ComponentValue::Collectible(c) => Some(c),
            _ => None,
        }
    }

    fn take_value(value: ComponentValue) -> (part: Option<Self>) {
        match value {
            ComponentValue::Collectible(c) => Some(c),
            _ => None,
        }
    }
}


impl Component for Timer {
    open spec fn kind() -> ComponentKind {
        ComponentKind::Timer
    }

    open spec fn wrap(self) -> ComponentValue {
        ComponentValue::Timer(self)
    }

    open spec fn peel(value: ComponentValue) -> Option<Self> {
        match value {
            ComponentValue::Timer(c) => Some(c),
            _ => None,
        }
    }

    proof fn lemma_wrap_peel(c: Self) {
    }

    proof fn lemma_peel_wrap(value: ComponentValue) {
    }

    fn kind_of() -> (kind: ComponentKind) {
        ComponentKind::Timer
    }

    fn into_value(self) -> (value: ComponentValue) {
        ComponentValue::Timer(self)
    }

    fn from_value(value: &ComponentValue) -> (part: Option<&Self>) {
        match value {
            ComponentValue::Timer(c) => Some(c),
            _ => None,
        }
    }

    fn from_value_mut(value: &mut ComponentValue) -> (part: Option<&mut Self>) {
        match value {
            ComponentValue::Timer(c) => Some(c),
            _ => None,
        }
    }

    fn take_value(value: ComponentValue) -> (part: Option<Self>) {
        match value {
            ComponentValue::Timer(c) => Some(c),
            _ => None,
        }
    }
}


impl Component for BadguyAI {
    open spec fn kind() -> ComponentKind {
        ComponentKind::BadguyAI
    }

    open spec fn wrap(self) -> ComponentValue {
        ComponentValue::BadguyAI(self)
    }

    open spec fn peel(value: ComponentValue) -> Option<Self> {
        match value {
            ComponentValue::BadguyAI(c) => Some(c),
            _ => None,
        }
    }

    proof fn lemma_wrap_peel(c: Self) {
    }

    proof fn lemma_peel_wrap(value: ComponentValue) {
    }

    fn kind_of() -> (kind: ComponentKind) {
        ComponentKind::BadguyAI
    }

    fn into_value(self) -> (value: ComponentValue) {
        ComponentValue::BadguyAI(self)
    }

    fn from_value(value: &ComponentValue) -> (part: Option<&Self>) {
        match value {
            ComponentValue::BadguyAI(c) => Some(c),
            _ => None,
        }
    }

    fn from_value_mut(value: &mut ComponentValue) -> (part: Option<&mut Self>) {
        match value {
            ComponentValue::BadguyAI(c) => Some(c),
            _ => None,
        }
    }

    fn take_value(value: ComponentValue) -> (part: Option<Self>) {
        match value {
            ComponentValue::BadguyAI(c) => Some(c),
            _ => None,
        }
    }
}


impl Component for Badguy {
    open spec fn kind() -> ComponentKind {
        ComponentKind::Badguy
    }

    open spec fn wrap(self) -> ComponentValue {
        ComponentValue::Badguy(self)
    }

    open spec fn peel(value: ComponentValue) -> Option<Self> {
        match value {
            ComponentValue::Badguy(c) => Some(c),
            _ => None,
        }
    }

    proof fn lemma_wrap_peel(c: Self) {
    }

    proof fn lemma_peel_wrap(value: ComponentValue) {
    }

    fn kind_of() -> (kind: ComponentKind) {
        ComponentKind::Badguy
    }

    fn into_value(self) -> (value: ComponentValue) {
        ComponentValue::Badguy(self)
    }

    fn from_value(value: &ComponentValue) -> (part: Option<&Self>) {
        match value {
            ComponentValue::Badguy(c) => Some(c),
            _ => None,
        }
    }

    fn from_value_mut(value: &mut ComponentValue) -> (part: Option<&mut Self>) {
        match value {
            ComponentValue::Badguy(c) => Some(c),
            _ => None,
        }
    }

    fn take_value(value: ComponentValue) -> (part: Option<Self>) {
        match value {
            ComponentValue::Badguy(c) => Some(c),
            _ => None,
        }
    }
}


impl Component for PlayerController {
    open spec fn kind() -> ComponentKind {
        ComponentKind::PlayerController
    }

    open spec fn wrap(self) -> ComponentValue {
        ComponentValue::PlayerController(self)
    }

    open spec fn peel(value: ComponentValue) -> Option<Self> {
        match value {
            ComponentValue::PlayerController(c) => Some(c),
            _ => None,
        }
    }

    proof fn lemma_wrap_peel(c: Self) {
    }

    proof fn lemma_peel_wrap(value: ComponentValue) {
    }

    fn kind_of() -> (kind: ComponentKind) {
        ComponentKind::PlayerController
    }

    fn into_value(self) -> (value: ComponentValue) {
        ComponentValue::PlayerController(self)
    }

    fn from_value(value: &ComponentValue) -> (part: Option<&Self>) {
        match value {
            ComponentValue::PlayerController(c) => Some(c),
            _ => None,
        }
    }

    fn from_value_mut(value: &mut ComponentValue) -> (part: Option<&mut Self>) {
        match value {
            ComponentValue::PlayerController(c) => Some(c),
            _ => None,
        }
    }

    fn take_value(value: ComponentValue) -> (part: Option<Self>) {
        match value {
            ComponentValue::PlayerController(c) => Some(c),
            _ => None,
        }
    }
}


/// The components of one entity: at most one of each kind.
#[derive(Debug, Clone)]
pub struct ComponentStore {
    slots: Vec<Option<ComponentValue>>,
}

impl View for ComponentStore {
    type V = Map<ComponentKind, ComponentValue>;

    closed spec fn view(&self) -> Map<ComponentKind, ComponentValue> {
        Map::new(
            |kind: ComponentKind| self.slots@[kind.ordinal()] is Some,
            |kind: ComponentKind| self.slots@[kind.ordinal()]->0,
        )
    }
}

impl ComponentStore {
    /// There is a place for each kind, and each component is filed under
    /// its own kind.
    pub closed spec fn wf(&self) -> bool {
        &&& self.slots@.len() == 9
        &&& forall|kind: ComponentKind|
            (#[trigger] self.slots@[kind.ordinal()]) is Some ==> self.slots@[kind.ordinal()]->0.kind()
                == kind
    }

    /// A store is well formed exactly when what it holds is filed by kind.
    pub proof fn lemma_wf_view(&self)
        requires
            self.wf(),
        ensures
            forall|kind: ComponentKind| #[trigger]
                self@.contains_key(kind) ==> self@[kind].kind() == kind,
    {
    }

    /// A store without components.
    pub fn new() -> (store: Self)
        ensures
            store.wf(),
            store@ == Map::<ComponentKind, ComponentValue>::empty(),
    {
        let mut slots: Vec<Option<ComponentValue>> = Vec::new();
        let mut i: usize = 0;
        while i < 9
            invariant
                i <= 9,
                slots@.len() == i,
                forall|k: int| 0 <= k < i ==> slots@[k] is None,
            decreases 9 - i,
        {
            slots.push(None);
            i += 1;
        }
        let store = Self { slots };
        assert(store@ =~= Map::<ComponentKind, ComponentValue>::empty());
        store
    }

    /// Files a component under its kind, in place of the one that was
    /// there.
    pub fn insert(&mut self, value: ComponentValue)
        requires
            old(self).wf(),
        ensures
            final(self).wf(),
            final(self)@ == old(self)@.insert(value.kind(), value),
    {
        let i = value.kind_of().index();
        let ghost kind = value.kind();
        self.slots.set(i, Some(value));
        proof {
            assert forall|k: ComponentKind| k != kind implies k.ordinal() != kind.ordinal() by {}
            assert(self@ =~= old(self)@.insert(kind, value));
        }
    }

    /// The component of a kind.
    pub fn get(&self, kind: ComponentKind) -> (value: Option<&ComponentValue>)
        requires
            self.wf(),
        ensures
            match value {
                Some(v) => self@.contains_key(kind) && self@[kind] == *v,
                None => !self@.contains_key(kind),
            },
    {
        self.slots[kind.index()].as_ref()
    }

    /// The component of a kind, to be changed in place. The store stays
    /// well formed as long as the component keeps its kind.
    pub fn get_mut(&mut self, kind: ComponentKind) -> (value: Option<&mut ComponentValue>)
        requires
            old(self).wf(),
        ensures
            match value {
                Some(v) => {
                    &&& old(self)@.contains_key(kind)
                    &&& old(self)@[kind] == *v
                    &&& final(self)@ =~= old(self)@.insert(kind, *final(v))
                    &&& final(v).kind() == kind ==> final(self).wf()
                },
                None => !old(self)@.contains_key(kind) && final(self)@ =~= old(self)@
                    && final(self).wf(),
            },
    {
        let i = kind.index();
        proof {
            assert forall|k: ComponentKind| k != kind implies k.ordinal() != kind.ordinal() by {}
        }
        match &mut self.slots[i] {
            Some(v) => Some(v),
            None => None,
        }
    }

    /// Whether there is a component of a kind.
    pub fn contains(&self, kind: ComponentKind) -> (found: bool)
        requires
            self.wf(),
        ensures
            found == self@.contains_key(kind),
    {
        self.slots[kind.index()].is_some()
    }

    /// Takes the component of a kind out and hands it back.
    pub fn remove(&mut self, kind: ComponentKind) -> (value: Option<ComponentValue>)
        requires
            old(self).wf(),
        ensures
            final(self).wf(),
            final(self)@ == old(self)@.remove(kind),
            match value {
                Some(v) => old(self)@.contains_key(kind) && old(self)@[kind] == v,
                None => !old(self)@.contains_key(kind),
            },
    {
        let i = kind.index();
        let mut taken: Option<ComponentValue> = None;
        let ghost before = self.slots@;
        proof {
            assert forall|k: ComponentKind| k != kind implies k.ordinal() != kind.ordinal() by {}
        }
        core::mem::swap(&mut self.slots[i], &mut taken);
        proof {
            assert(self.slots@ =~= before.update(i as int, None));
            assert(self@ =~= old(self)@.remove(kind));
        }
        taken
    }
}

/// An entity: an identity, a name, a tag, and components.
#[derive(Debug, Clone)]
pub struct GameObject {
    pub id: ObjectId,
    pub active: bool,
    pub name: String,
    pub tag: String,
    pub components: ComponentStore,
}

impl GameObject {
    /// The components are filed by kind.
    pub open spec fn wf(&self) -> bool {
        self.components.wf()
    }

    /// The component of type `T`, where the entity has one.
    pub open spec fn component<T: Component>(&self) -> Option<T> {
        if self.components@.contains_key(T::kind()) {
            T::peel(self.components@[T::kind()])
        } else {
            None
        }
    }

    /// The same entity with other components.
    pub open spec fn differs_in_components_only(&self, other: &GameObject) -> bool {
        &&& self.id == other.id
        &&& self.active == other.active
        &&& self.name == other.name
        &&& self.tag == other.tag
    }

    /// An active entity without tag or components.
    pub fn new(id: ObjectId, name: String) -> (object: Self)
        ensures
            object.wf(),
            object.id == id,
            object.active,
            object.name == name,
            object.tag@ == Seq::<char>::empty(),
            object.components@ == Map::<ComponentKind, ComponentValue>::empty(),
    {
        Self { id, active: true, name, tag: String::new(), components: ComponentStore::new() }
    }

    /// The same entity with a tag.
    pub fn with_tag(self, tag: String) -> (object: Self)
        ensures
            object.tag == tag,
            object.id == self.id,
            object.active == self.active,
            object.name == self.name,
            object.components == self.components,
    {
        let mut object = self;
        object.tag = tag;
        object
    }

    /// Gives the entity a component, in place of the one of the same kind
    /// that it may have. Components of other kinds stay.
    pub fn add_component<T: Component>(&mut self, component: T)
        requires
            old(self).wf(),
        ensures
            final(self).wf(),
            final(self).differs_in_components_only(old(self)),
            final(self).components@ == old(self).components@.insert(T::kind(), component.wrap()),
            final(self).component::<T>() == Some(component),
    {
        proof {
            T::lemma_wrap_peel(component);
        }
        self.components.insert(component.into_value());
    }

    /// The component of type `T`; `None` where the entity has none.
    pub fn get_component<T: Component>(&self) -> (part: Option<&T>)
        requires
            self.wf(),
        ensures
            match part {
                Some(c) => self.component::<T>() == Some(*c),
                None => self.component::<T>() is None,
            },
    {
        match self.components.get(T::kind_of()) {
            Some(value) => {
                proof {
                    self.components.lemma_wf_view();
                    T::lemma_peel_wrap(*value);
                }
                T::from_value(value)
            },
            None => None,
        }
    }

    /// The component of type `T`, to be changed in place; `None` where the
    /// entity has none. What the component is when the caller lets go of
    /// it is what the entity then holds.
    pub fn get_component_mut<T: Component>(&mut self) -> (part: Option<&mut T>)
        requires
            old(self).wf(),
        ensures
            match part {
                Some(c) => {
                    &&& old(self).component::<T>() == Some(*c)
                    &&& final(self).wf()
                    &&& final(self).differs_in_components_only(old(self))
                    &&& final(self).components@ == old(self).components@.insert(
                        T::kind(),
                        final(c).wrap(),
                    )
                    &&& final(self).component::<T>() == Some(*final(c))
                },
                None => {
                    &&& old(self).component::<T>() is None
                    &&& final(self).wf()
                    &&& final(self).differs_in_components_only(old(self))
                    &&& final(self).components@ == old(self).components@
                },
            },
    {
        proof {
            self.components.lemma_wf_view();
        }
        match self.components.get_mut(T::kind_of()) {
            Some(value) => {
                proof {
                    T::lemma_peel_wrap(*value);
                }
                let part = T::from_value_mut(value);
                proof {
                    if part is Some {
                        T::lemma_wrap_peel(*final(part->0));
                    }
                }
                part
            },
            None => None,
        }
    }

    /// Whether the entity has a component of type `T`.
    pub fn has_component<T: Component>(&self) -> (found: bool)
        requires
            self.wf(),
        ensures
            found == self.components@.contains_key(T::kind()),
            found == self.component::<T>() is Some,
    {
        proof {
            self.components.lemma_wf_view();
            if self.components@.contains_key(T::kind()) {
                T::lemma_peel_wrap(self.components@[T::kind()]);
            }
        }
        self.components.contains(T::kind_of())
    }

    /// Takes the component of type `T` from the entity and hands it back.
    /// Components of other kinds stay.
    pub fn remove_component<T: Component>(&mut self) -> (taken: Option<ComponentValue>)
        requires
            old(self).wf(),
        ensures
            final(self).wf(),
            final(self).differs_in_components_only(old(self)),
            final(self).components@ == old(self).components@.remove(T::kind()),
            final(self).component::<T>() is None,
            match taken {
                Some(v) => old(self).components@.contains_key(T::kind()) && old(
                    self,
                ).components@[T::kind()] == v,
                None => !old(self).components@.contains_key(T::kind()),
            },
    {
        self.components.remove(T::kind_of())
    }

    /// Where the entity is: the position of its transform, and the origin
    /// where it has none.
    pub fn position(&self) -> (at: Vector2)
        requires
            self.wf(),
        ensures
            at == match self.component::<Transform>() {
                Some(t) => t.position,
                None => Vector2::origin(),
            },
    {
        match self.get_component::<Transform>() {
            Some(t) => t.position,
            None => Vector2::zero(),
        }
    }

    /// Moves the entity: sets the position of its transform. An entity
    /// without transform stays as it is.
    pub fn set_position(&mut self, position: Vector2)
        requires
            old(self).wf(),
        ensures
            final(self).wf(),
            final(self).differs_in_components_only(old(self)),
            match old(self).component::<Transform>() {
                Some(t) => final(self).components@ == old(self).components@.insert(
                    ComponentKind::Transform,
                    ComponentValue::Transform(Transform { position, ..t }),
                ),
                None => final(self).components@ == old(self).components@,
            },
    {
        match self.get_component_mut::<Transform>() {
            Some(transform) => {
                transform.position = position;
            },
            None => {},
        }
    }

    /// The rectangle the entity fills: at the position of its transform,
    /// with the size of its sprite times the scale of its transform. `None`
    /// unless the entity has both.
    pub fn get_bounds(&self) -> (bounds: Option<Rect>)
        requires
            self.wf(),
        ensures
            bounds == match (self.component::<Transform>(), self.component::<SpriteComponent>()) {
                (Some(t), Some(s)) => Some(
                    Rect {
                        x: t.position.x,
                        y: t.position.y,
                        width: scaled(s.sprite.size.x as int, t.scale.x as int) as i32,
                        height: scaled(s.sprite.size.y as int, t.scale.y as int) as i32,
                    },
                ),
                _ => None,
            },
    {
        match self.get_component::<Transform>() {
            Some(transform) => match self.get_component::<SpriteComponent>() {
                Some(sprite_comp) => Some(
                    Rect::new(
                        transform.position.x,
                        transform.position.y,
                        scale_extent(sprite_comp.sprite.size.x, transform.scale.x),
                        scale_extent(sprite_comp.sprite.size.y, transform.scale.y),
                    ),
                ),
                None => None,
            },
            None => None,
        }
    }
}

/// A component that was added is the one that is found, and adding a second
/// of the same kind leaves only the second.
pub proof fn lemma_component_added_is_found<T: Component>(
    components: Map<ComponentKind, ComponentValue>,
    first: T,
    second: T,
)
    ensures
        T::peel(components.insert(T::kind(), first.wrap())[T::kind()]) == Some(first),
        components.insert(T::kind(), first.wrap()).insert(T::kind(), second.wrap())
            == components.insert(T::kind(), second.wrap()),
        forall|kind: ComponentKind|
            kind != T::kind() ==> (#[trigger] components.insert(T::kind(), first.wrap()).contains_key(
                kind,
            ) <==> components.contains_key(kind)),
{
    T::lemma_wrap_peel(first);
    assert(components.insert(T::kind(), first.wrap()).insert(T::kind(), second.wrap())
        =~= components.insert(T::kind(), second.wrap()));
}

} // verus!
