//! Rigid bodies and the world that moves them in steps of fixed length.

use vstd::prelude::*;
use crate::collision::CollisionLayer;
use crate::config::{TERMINAL_VELOCITY, UNIT};
use crate::math::utils::clamped;
use crate::math::{divide, quotient, saturate, saturate_to_i32, Rect, Vector2};

pub mod constants;
pub mod utils;
pub mod world;

pub use world::PhysicsWorld;

verus! {

/// How a body takes part in the simulation.
#[derive(Debug, Clone, Copy, PartialEq, Eq, Structural)]
pub enum BodyType {
    /// Never moves; its mass is infinite.
    Static,
    /// Moves as it is told, and no force acts on it.
    Kinematic,
    /// Moved by forces and by gravity.
    Dynamic,
}

/// What a body is made of. The three numbers are fixed-point.
#[derive(Debug, Clone, Copy, PartialEq, Eq, Structural)]
pub struct PhysicsMaterial {
    /// Friction, from none at zero to high at one.
    pub friction: i32,
    /// Bounciness, from none at zero to a perfect bounce at one.
    pub restitution: i32,
    /// Mass per unit of area.
    pub density: i32,
}

impl Default for PhysicsMaterial {
    fn default() -> (m: Self)
        ensures
            m == (PhysicsMaterial { friction: 500, restitution: 0, density: 1000 }),
    {
        Self { friction: 500, restitution: 0, density: 1000 }
    }
}

/// The mass of a body: a fixed-point number, or infinite.
#[derive(Debug, Clone, Copy, PartialEq, Eq, Structural)]
pub enum Mass {
    Finite(i64),
    Infinite,
}

/// The value nearest to `v` that an `i64` can hold.
pub open spec fn saturate_wide(v: int) -> int {
    clamped(v, i64::MIN as int, i64::MAX as int)
}

/// The mass of a body of the given size and density: its area times the
/// density.
pub open spec fn mass_of(size: Vector2, density: int) -> int {
    saturate_wide(quotient(size.x * size.y * density, (UNIT as int) * (UNIT as int)))
}

/// A rectangle with mass, position and velocity.
#[derive(Debug, Clone, Copy, PartialEq, Eq, Structural)]
pub struct PhysicsBody {
    /// Identity.
    pub id: u32,
    /// How the body takes part in the simulation.
    pub body_type: BodyType,
    /// Top-left corner.
    pub position: Vector2,
    /// Units per second.
    pub velocity: Vector2,
    /// What the forces applied since the last step add up to, in units per
    /// second squared.
    pub acceleration: Vector2,
    /// Extent.
    pub size: Vector2,
    /// Mass.
    pub mass: Mass,
    /// Material.
    pub material: PhysicsMaterial,
    /// Layer on whose behalf the body collides.
    pub collision_layer: CollisionLayer,
    /// Whether gravity acts on the body.
    pub use_gravity: bool,
    /// Whether the body came to rest on something in the last step.
    pub on_ground: bool,
    /// Whether the body is simulated at all.
    pub active: bool,
    /// The greatest speed along each axis.
    pub max_velocity: Vector2,
    /// The fixed-point factor by which the velocity shrinks in each step.
    pub linear_damping: i32,
}

/// One component of a quantity after a push was divided by the mass and
/// added to it.
pub open spec fn pushed(value: int, push: int, mass: int) -> int
    recommends
        mass != 0,
{
    saturate(value + quotient(push * UNIT, mass))
}

impl PhysicsBody {
    /// Forces and impulses move this body: it is dynamic and its mass is
    /// finite and not zero.
    pub open spec fn yields(self) -> bool {
        self.body_type == BodyType::Dynamic && self.mass is Finite && self.mass->Finite_0 != 0
    }

    /// The rectangle the body fills.
    pub open spec fn rect(self) -> Rect {
        Rect { x: self.position.x, y: self.position.y, width: self.size.x, height: self.size.y }
    }

    /// A body as it is made: at rest, of density one, on the world layer,
    /// active and in the air. A dynamic body has the mass of its area, and
    /// gravity acts on it; any other has infinite mass, and gravity does
    /// not.
    pub open spec fn fresh(id: u32, position: Vector2, size: Vector2, body_type: BodyType) -> Self {
        PhysicsBody {
            id,
            body_type,
            position,
            velocity: Vector2::origin(),
            acceleration: Vector2::origin(),
            size,
            mass: if body_type == BodyType::Dynamic {
                Mass::Finite(mass_of(size, 1000) as i64)
            } else {
                Mass::Infinite
            },
            material: PhysicsMaterial { friction: 500, restitution: 0, density: 1000 },
            collision_layer: CollisionLayer::World,
            use_gravity: body_type == BodyType::Dynamic,
            on_ground: false,
            active: true,
            max_velocity: Vector2 { x: 400000, y: TERMINAL_VELOCITY },
            linear_damping: 980,
        }
    }

    /// After a force: the force over the mass is added to the acceleration.
    /// Nothing changes unless the body yields.
    pub open spec fn forced(self, force: Vector2) -> Self {
        if self.yields() {
            PhysicsBody {
                acceleration: Vector2 {
                    x: pushed(self.acceleration.x as int, force.x as int, self.mass->Finite_0 as int) as i32,
                    y: pushed(self.acceleration.y as int, force.y as int, self.mass->Finite_0 as int) as i32,
                },
                ..self
            }
        } else {
            self
        }
    }

    /// After an impulse: the impulse over the mass is added to the velocity.
    /// Nothing changes unless the body yields.
    pub open spec fn kicked(self, impulse: Vector2) -> Self {
        if self.yields() {
            PhysicsBody {
                velocity: Vector2 {
                    x: pushed(self.velocity.x as int, impulse.x as int, self.mass->Finite_0 as int) as i32,
                    y: pushed(self.velocity.y as int, impulse.y as int, self.mass->Finite_0 as int) as i32,
                },
                ..self
            }
        } else {
            self
        }
    }

    /// With the velocity set, unless the body is static.
    pub open spec fn with_velocity(self, velocity: Vector2) -> Self {
        if self.body_type != BodyType::Static {
            PhysicsBody { velocity, ..self }
        } else {
            self
        }
    }

    /// With the position set, unless the body is static.
    pub open spec fn with_position(self, position: Vector2) -> Self {
        if self.body_type != BodyType::Static {
            PhysicsBody { position, ..self }
        } else {
            self
        }
    }

    /// A new body: see `fresh`.
    pub fn new(id: u32, position: Vector2, size: Vector2, body_type: BodyType) -> (body: Self)
        ensures
            body == Self::fresh(id, position, size, body_type),
    {
        let mass = match body_type {
            BodyType::Static => Mass::Infinite,
            BodyType::Kinematic => Mass::Infinite,
            BodyType::Dynamic => Mass::Finite(crate::physics::utils::calculate_mass(size, 1000)),
        };
        Self {
            id,
            body_type,
            position,
            velocity: Vector2::zero(),
            acceleration: Vector2::zero(),
            size,
            mass,
            material: PhysicsMaterial::default(),
            collision_layer: CollisionLayer::World,
            use_gravity: match body_type {
                BodyType::Dynamic => true,
                _ => false,
            },
            on_ground: false,
            active: true,
            max_velocity: Vector2::new(400000, TERMINAL_VELOCITY),
            linear_damping: 980,
        }
    }

    /// The rectangle the body fills.
    pub fn get_rect(&self) -> (r: Rect)
        ensures
            r == self.rect(),
    {
        Rect::new(self.position.x, self.position.y, self.size.x, self.size.y)
    }

    /// The middle of the body.
    pub fn get_center(&self) -> (c: Vector2)
        ensures
            c == self.rect().middle(),
    {
        self.get_rect().center()
    }

    /// Applies a force: see `forced`.
    pub fn apply_force(&mut self, force: Vector2)
        ensures
            *final(self) == old(self).forced(force),
    {
        if let (BodyType::Dynamic, Mass::Finite(m)) = (self.body_type, self.mass) {
            if m != 0 {
                self.acceleration = Vector2 {
                    x: push_component(self.acceleration.x, force.x, m),
                    y: push_component(self.acceleration.y, force.y, m),
                };
            }
        }
    }

    /// Applies an impulse, a change of velocity at once: see `kicked`.
    pub fn apply_impulse(&mut self, impulse: Vector2)
        ensures
            *final(self) == old(self).kicked(impulse),
    {
        if let (BodyType::Dynamic, Mass::Finite(m)) = (self.body_type, self.mass) {
            if m != 0 {
                self.velocity = Vector2 {
                    x: push_component(self.velocity.x, impulse.x, m),
                    y: push_component(self.velocity.y, impulse.y, m),
                };
            }
        }
    }

    /// Sets the velocity. A static body keeps its own.
    pub fn set_velocity(&mut self, velocity: Vector2)
        ensures
            *final(self) == old(self).with_velocity(velocity),
    {
        match self.body_type {
            BodyType::Static => {},
            _ => {
                self.velocity = velocity;
            },
        }
    }

    /// Sets the position. A static body stays where it is.
    pub fn set_position(&mut self, position: Vector2)
        ensures
            *final(self) == old(self).with_position(position),
    {
        match self.body_type {
            BodyType::Static => {},
            _ => {
                self.position = position;
            },
        }
    }

    /// Whether the body moves faster than a tenth of a unit per second.
    pub fn is_moving(&self) -> (moving: bool)
        ensures
            moving == (self.velocity.gap_squared(Vector2::origin()) > 10000),
    {
        self.velocity.distance_squared(Vector2::zero()) > 10000
    }
}

/// One component of a quantity after a push.
fn push_component(value: i32, push: i32, mass: i64) -> (r: i32)
    requires
        mass != 0,
    ensures
        r == pushed(value as int, push as int, mass as int),
{
    let scaled: i128 = crate::math::multiply(push as i64, UNIT as i64);
    let part: i128 = divide(scaled, mass as i128);
    proof {
        crate::physics::utils::lemma_quotient_no_larger(scaled as int, mass as int);
    }
    saturate_to_i32(value as i128 + part)
}

} // verus!
