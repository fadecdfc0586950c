//! The world: a table of bodies over a collision system, advanced in steps
//! of a sixtieth of a second.

use vstd::prelude::*;
use std::collections::HashMap;
use crate::collision::{
    lemma_collisions_unique, push_out, pushed_out, CollisionLayer, CollisionObject,
    CollisionResult, CollisionSystem, CollisionType, CollisionView,
};
use crate::config::{FIXED_TIMESTEP, GRAVITY, TICKS_PER_SECOND, UNIT};
use crate::math::utils::{clamped, lemma_quotient_bounded};
use crate::math::{divide, multiply, quotient, saturate, saturate_to_i32, Direction, Rect, Vector2};
use crate::physics::{BodyType, PhysicsBody};
use crate::util::{entry_mut, keys_of};

verus! {

/// The speed along one axis after a step of `dt` ticks under acceleration
/// `a`: the acceleration acts for the length of the step, the damping
/// factor is applied once, and the outcome is held between `-max` and `max`.
pub open spec fn sped(v: int, a: int, dt: int, damping: int, max: int) -> int {
    saturate(
        clamped(
            quotient((v + quotient(a * dt, TICKS_PER_SECOND as int)) * damping, UNIT as int),
            -max,
            max,
        ),
    )
}

/// A coordinate after `dt` ticks at speed `v`.
pub open spec fn advanced(p: int, v: int, dt: int) -> int {
    saturate(p + quotient(v * dt, TICKS_PER_SECOND as int))
}

/// The body after the forces of a step acted on it. On a dynamic body
/// gravity joins the accumulated acceleration where the body takes it, and
/// the velocity follows; on any body the accumulated acceleration is spent.
pub open spec fn integrated(body: PhysicsBody, gravity: Vector2, dt: int) -> PhysicsBody {
    if body.body_type == BodyType::Dynamic {
        let pull = if body.use_gravity {
            gravity
        } else {
            Vector2::origin()
        };
        PhysicsBody {
            velocity: Vector2 {
                x: sped(
                    body.velocity.x as int,
                    body.acceleration.x + pull.x,
                    dt,
                    body.linear_damping as int,
                    body.max_velocity.x as int,
                ) as i32,
                y: sped(
                    body.velocity.y as int,
                    body.acceleration.y + pull.y,
                    dt,
                    body.linear_damping as int,
                    body.max_velocity.y as int,
                ) as i32,
            },
            acceleration: Vector2::origin(),
            ..body
        }
    } else {
        PhysicsBody { acceleration: Vector2::origin(), ..body }
    }
}

/// Whether a step moves the body at all: it is active and not static.
pub open spec fn simulated(body: PhysicsBody) -> bool {
    body.active && body.body_type != BodyType::Static
}

/// The body after the first half of a step.
pub open spec fn primed(body: PhysicsBody, gravity: Vector2, dt: int) -> PhysicsBody {
    if simulated(body) {
        integrated(body, gravity, dt)
    } else {
        body
    }
}

/// Where the velocity of a body takes it in `dt` ticks.
pub open spec fn destination(body: PhysicsBody, dt: int) -> Vector2 {
    Vector2 {
        x: advanced(body.position.x as int, body.velocity.x as int, dt) as i32,
        y: advanced(body.position.y as int, body.velocity.y as int, dt) as i32,
    }
}

/// The body set down at `target`, in the air until a contact says
/// otherwise.
pub open spec fn placed(body: PhysicsBody, target: Vector2) -> PhysicsBody {
    PhysicsBody { position: target, on_ground: false, ..body }
}

/// The body set down where its velocity takes it in `dt` ticks.
pub open spec fn arrived(body: PhysicsBody, dt: int) -> PhysicsBody {
    placed(body, destination(body, dt))
}

/// The body after it answered one contact; `rect` is where the step set it
/// down, `id` the id of its own collision object.
///
/// A solid object pushes the body out of `rect` along the direction of the
/// contact and stops it along that axis; the component of the velocity
/// across it stays. A platform does so only to a body that does not rise,
/// and only from above. Either puts the body on the ground when the contact
/// is downward. Triggers and sensors change nothing, and neither does the
/// body's own object.
pub open spec fn answer(body: PhysicsBody, id: u32, rect: Rect, hit: CollisionResult) -> PhysicsBody {
    if hit.object.id == id {
        body
    } else {
        match hit.object.collision_type {
            CollisionType::Solid => {
                let out = pushed_out(rect, hit);
                PhysicsBody {
                    position: Vector2 { x: out.x, y: out.y },
                    velocity: match hit.direction {
                        Direction::Left | Direction::Right => Vector2 { x: 0, y: body.velocity.y },
                        Direction::Up | Direction::Down => Vector2 { x: body.velocity.x, y: 0 },
                    },
                    on_ground: body.on_ground || hit.direction == Direction::Down,
                    ..body
                }
            },
            CollisionType::Platform => {
                if hit.direction == Direction::Down && body.velocity.y >= 0 {
                    PhysicsBody {
                        position: Vector2 { x: body.position.x, y: pushed_out(rect, hit).y },
                        velocity: Vector2 { x: body.velocity.x, y: 0 },
                        on_ground: true,
                        ..body
                    }
                } else {
                    body
                }
            },
            CollisionType::Trigger | CollisionType::Sensor => body,
        }
    }
}

/// The body after it answered the contacts of a step one after the other.
pub open spec fn settle(body: PhysicsBody, id: u32, rect: Rect, hits: Seq<CollisionResult>) -> PhysicsBody
    decreases hits.len(),
{
    if hits.len() == 0 {
        body
    } else {
        answer(settle(body, id, rect, hits.drop_last()), id, rect, hits.last())
    }
}

/// `after` is what the second half of a step makes of `body`: a body that
/// is simulated is set down where its velocity takes it and answers the
/// contacts that the collision system lists there for its layer.
pub open spec fn body_moved(
    body: PhysicsBody,
    id: u32,
    collision: CollisionView,
    dt: int,
    after: PhysicsBody,
) -> bool {
    if simulated(body) {
        let there = arrived(body, dt);
        exists|hits: Seq<CollisionResult>| #[trigger]
            collision.lists_collisions(there.rect(), body.collision_layer, hits) && after
                == settle(there, id, there.rect(), hits)
    } else {
        after == body
    }
}

/// `after` is what a step of `dt` ticks makes of `body`.
pub open spec fn body_stepped(
    body: PhysicsBody,
    id: u32,
    collision: CollisionView,
    gravity: Vector2,
    dt: int,
    after: PhysicsBody,
) -> bool {
    body_moved(primed(body, gravity, dt), id, collision, dt, after)
}

/// The collision objects after each body's object took the body's
/// rectangle.
pub open spec fn resynced(
    objects: Map<u32, CollisionObject>,
    bodies: Map<u32, PhysicsBody>,
) -> Map<u32, CollisionObject> {
    Map::new(
        |id: u32| objects.contains_key(id),
        |id: u32|
            if bodies.contains_key(id) {
                CollisionObject { rect: bodies[id].rect(), ..objects[id] }
            } else {
                objects[id]
            },
    )
}

/// The number of full steps among the ticks that wait and those that
/// arrive.
pub open spec fn steps_due(waiting: nat, arriving: nat) -> nat {
    ((waiting + arriving) as int / (FIXED_TIMESTEP as int)) as nat
}

/// The ticks that go on waiting once the full steps are taken.
pub open spec fn left_over(waiting: nat, arriving: nat) -> nat {
    ((waiting + arriving) as int % (FIXED_TIMESTEP as int)) as nat
}

/// What a world holds.
pub struct WorldView {
    /// The bodies, by id.
    pub bodies: Map<u32, PhysicsBody>,
    /// The collision system.
    pub collision: CollisionView,
    /// Ticks that were handed in and not yet simulated.
    pub accumulator: nat,
    /// Acceleration of every body that takes gravity.
    pub gravity: Vector2,
    /// Whether time stands still.
    pub paused: bool,
}

impl WorldView {
    /// `next` is this world one step of `dt` ticks later. Every body was
    /// stepped against the collision objects as they stood before the
    /// step; then each body's object took the body's new rectangle.
    pub open spec fn stepped(self, dt: int, next: WorldView) -> bool {
        &&& next.gravity == self.gravity
        &&& next.paused == self.paused
        &&& next.accumulator == self.accumulator
        &&& next.bodies.dom() == self.bodies.dom()
        &&& forall|id: u32| #[trigger]
            self.bodies.contains_key(id) ==> body_stepped(
                self.bodies[id],
                id,
                self.collision,
                self.gravity,
                dt,
                next.bodies[id],
            )
        &&& next.collision == (CollisionView {
            objects: resynced(self.collision.objects, next.bodies),
            ..self.collision
        })
    }

    /// `last` is this world `n` steps of the fixed length later.
    pub open spec fn runs(self, n: nat, last: WorldView) -> bool
        decreases n,
    {
        if n == 0 {
            last == self
        } else {
            exists|mid: WorldView|
                self.runs((n - 1) as nat, mid) && #[trigger] mid.stepped(
                    FIXED_TIMESTEP as int,
                    last,
                )
        }
    }

    /// `after` is this world once it was handed `ticks` ticks: a paused
    /// world is as it was; else the full steps among the ticks that waited
    /// and those that came were run, and the rest goes on waiting.
    pub open spec fn updated(self, ticks: nat, after: WorldView) -> bool {
        if self.paused {
            after == self
        } else {
            &&& after.accumulator == left_over(self.accumulator, ticks)
            &&& self.waiting(0).runs(steps_due(self.accumulator, ticks), after.waiting(0))
        }
    }

    /// This world after a body was given a velocity: a static body keeps
    /// its own, and nothing changes where the id is unknown.
    pub open spec fn with_body_velocity(self, id: u32, velocity: Vector2) -> WorldView {
        if self.bodies.contains_key(id) {
            WorldView {
                bodies: self.bodies.insert(id, self.bodies[id].with_velocity(velocity)),
                ..self
            }
        } else {
            self
        }
    }

    /// This world after a body was put at a position: a static body stays
    /// where it is, the collision object of the body goes where the body
    /// then is, and nothing changes where the id is unknown.
    pub open spec fn with_body_position(self, id: u32, position: Vector2) -> WorldView {
        if self.bodies.contains_key(id) {
            let body = self.bodies[id].with_position(position);
            WorldView {
                bodies: self.bodies.insert(id, body),
                collision: CollisionView {
                    objects: if self.collision.objects.contains_key(id) {
                        self.collision.objects.insert(
                            id,
                            CollisionObject { rect: body.rect(), ..self.collision.objects[id] },
                        )
                    } else {
                        self.collision.objects
                    },
                    ..self.collision
                },
                ..self
            }
        } else {
            self
        }
    }

    /// This world with another count of ticks waiting.
    pub open spec fn waiting(self, ticks: nat) -> WorldView {
        WorldView { accumulator: ticks, ..self }
    }
}

/// The speed along one axis after a step.
fn speed_after(v: i32, a: i64, dt: u32, damping: i32, max: i32) -> (r: i32)
    requires
        -0x1_0000_0000 <= a <= 0x1_0000_0000,
    ensures
        r == sped(v as int, a as int, dt as int, damping as int, max as int),
{
    let impulse: i128 = multiply(a, dt as i64);
    let gained: i128 = divide(impulse, TICKS_PER_SECOND as i128);
    proof {
        lemma_quotient_bounded(impulse as int, TICKS_PER_SECOND as int);
        assert(-0x1_0000_0000_0000_0000 <= impulse <= 0x1_0000_0000_0000_0000) by (nonlinear_arith)
            requires
                impulse == (a as int) * (dt as int),
                -0x1_0000_0000 <= a <= 0x1_0000_0000,
                0 <= dt <= 0x1_0000_0000,
        ;
    }
    let raised: i128 = v as i128 + gained;
    assert(-0x1_0000_0000_0000_0000_0000_0000 <= raised * (damping as i128)
        <= 0x1_0000_0000_0000_0000_0000_0000) by (nonlinear_arith)
        requires
            -0x2_0000_0000_0000_0000 <= raised <= 0x2_0000_0000_0000_0000,
            -0x8000_0000 <= damping <= 0x8000_0000,
    ;
    let damped: i128 = divide(raised * (damping as i128), UNIT as i128);
    let low: i128 = -(max as i128);
    let high: i128 = max as i128;
    let held: i128 = if damped < low {
        low
    } else if damped > high {
        high
    } else {
        damped
    };
    saturate_to_i32(held)
}

/// A coordinate after `dt` ticks at speed `v`.
fn advance(p: i32, v: i32, dt: u32) -> (r: i32)
    ensures
        r == advanced(p as int, v as int, dt as int),
{
    let way: i128 = divide(multiply(v as i64, dt as i64), TICKS_PER_SECOND as i128);
    proof {
        lemma_quotient_bounded((v as int) * (dt as int), TICKS_PER_SECOND as int);
    }
    saturate_to_i32(p as i128 + way)
}

/// Lets the forces of a step act on a body: see `integrated`.
pub fn integrate(body: &mut PhysicsBody, gravity: Vector2, dt: u32)
    ensures
        *final(body) == integrated(*old(body), gravity, dt as int),
{
    match body.body_type {
        BodyType::Dynamic => {
            let pull = if body.use_gravity {
                gravity
            } else {
                Vector2::zero()
            };
            body.velocity = Vector2 {
                x: speed_after(
                    body.velocity.x,
                    body.acceleration.x as i64 + pull.x as i64,
                    dt,
                    body.linear_damping,
                    body.max_velocity.x,
                ),
                y: speed_after(
                    body.velocity.y,
                    body.acceleration.y as i64 + pull.y as i64,
                    dt,
                    body.linear_damping,
                    body.max_velocity.y,
                ),
            };
        },
        _ => {},
    }
    body.acceleration = Vector2::zero();
}

/// Where the velocity of a body takes it in `dt` ticks.
pub fn destination_of(body: &PhysicsBody, dt: u32) -> (target: Vector2)
    ensures
        target == destination(*body, dt as int),
{
    Vector2 {
        x: advance(body.position.x, body.velocity.x, dt),
        y: advance(body.position.y, body.velocity.y, dt),
    }
}

/// Lets a body answer one contact: see `answer`.
pub fn apply_collision(body: &mut PhysicsBody, id: u32, rect: &Rect, hit: &CollisionResult)
    ensures
        *final(body) == answer(*old(body), id, *rect, *hit),
{
    if hit.object.id == id {
        return ;
    }
    match hit.object.collision_type {
        CollisionType::Solid => {
            let out = push_out(rect, hit);
            body.position = Vector2 { x: out.x, y: out.y };
            match hit.direction {
                Direction::Left | Direction::Right => {
                    body.velocity.x = 0;
                },
                Direction::Up => {
                    body.velocity.y = 0;
                },
                Direction::Down => {
                    body.velocity.y = 0;
                    body.on_ground = true;
                },
            }
        },
        CollisionType::Platform => {
            if hit.direction == Direction::Down && body.velocity.y >= 0 {
                let out = push_out(rect, hit);
                body.position.y = out.y;
                body.velocity.y = 0;
                body.on_ground = true;
            }
        },
        CollisionType::Trigger | CollisionType::Sensor => {},
    }
}

/// Lets a body answer the contacts of a step in turn: see `settle`.
pub fn resolve_collisions(
    body: &mut PhysicsBody,
    id: u32,
    rect: &Rect,
    collisions: &Vec<CollisionResult>,
)
    ensures
        *final(body) == settle(*old(body), id, *rect, collisions@),
{
    let mut n: usize = 0;
    while n < collisions.len()
        invariant
            n <= collisions.len(),
            *body == settle(*old(body), id, *rect, collisions@.take(n as int)),
        decreases collisions.len() - n,
    {
        apply_collision(body, id, rect, &collisions[n]);
        proof {
            assert(collisions@.take(n + 1).drop_last() =~= collisions@.take(n as int));
        }
        n += 1;
    }
    proof {
        assert(collisions@.take(n as int) =~= collisions@);
    }
}

/// The world of bodies.
pub struct PhysicsWorld {
    bodies: HashMap<u32, PhysicsBody>,
    collision_system: CollisionSystem,
    accumulator: u32,
    gravity: Vector2,
    paused: bool,
}

impl View for PhysicsWorld {
    type V = WorldView;

    closed spec fn view(&self) -> WorldView {
        WorldView {
            bodies: self.bodies@,
            collision: self.collision_system@,
            accumulator: self.accumulator as nat,
            gravity: self.gravity,
            paused: self.paused,
        }
    }
}

impl WorldView {
    /// Every body is filed under its own id, and less than one step is
    /// waiting.
    pub open spec fn sound(self) -> bool {
        &&& self.accumulator < FIXED_TIMESTEP
        &&& forall|id: u32| self.bodies.contains_key(id) ==> (#[trigger] self.bodies[id]).id == id
    }

    /// The bodies and the waiting ticks are sound, and the collision system
    /// is well formed.
    pub open spec fn wf(self) -> bool {
        self.collision.wf() && self.sound()
    }
}

impl PhysicsWorld {
    /// The collision system is sound and what the world holds is well
    /// formed.
    pub closed spec fn wf(&self) -> bool {
        &&& self.collision_system.wf()
        &&& self@.sound()
    }

    /// What is well formed of a world is well formed of what it holds.
    pub proof fn lemma_wf_view(&self)
        requires
            self.wf(),
        ensures
            self@.wf(),
    {
        self.collision_system.lemma_wf_view();
    }

    /// An empty world under standard gravity, with the default layer rules,
    /// running.
    pub fn new() -> (world: Self)
        ensures
            world.wf(),
            world@.bodies == Map::<u32, PhysicsBody>::empty(),
            world@.collision.objects == Map::<u32, CollisionObject>::empty(),
            world@.collision.next_id == 1,
            forall|a: CollisionLayer, b: CollisionLayer| #[trigger]
                world@.collision.interaction(a, b) == crate::collision::default_interaction(a, b),
            world@.accumulator == 0,
            world@.gravity == (Vector2 { x: 0, y: GRAVITY }),
            !world@.paused,
    {
        let world = Self {
            bodies: HashMap::new(),
            collision_system: CollisionSystem::new(),
            accumulator: 0,
            gravity: Vector2::new(0, GRAVITY),
            paused: false,
        };
        world
    }

    /// Whether a body can still be added: each takes an id, and ids are not
    /// given out twice.
    pub fn has_free_id(&self) -> (free: bool)
        ensures
            free == (self@.collision.next_id < u32::MAX),
    {
        self.collision_system.has_free_id()
    }

    /// Adds a body and hands back its id. The body is filed under the id of
    /// the solid collision object that is made for its rectangle and layer.
    pub fn add_body(&mut self, body: PhysicsBody) -> (id: u32)
        requires
            old(self).wf(),
            old(self)@.collision.next_id < u32::MAX,
        ensures
            final(self).wf(),
            id == old(self)@.collision.next_id,
            final(self)@ == (WorldView {
                bodies: old(self)@.bodies.insert(id, PhysicsBody { id, ..body }),
                collision: CollisionView {
                    objects: old(self)@.collision.objects.insert(
                        id,
                        CollisionObject {
                            id,
                            rect: body.rect(),
                            layer: body.collision_layer,
                            collision_type: CollisionType::Solid,
                            active: true,
                        },
                    ),
                    next_id: (id + 1) as u32,
                    ..old(self)@.collision
                },
                ..old(self)@
            }),
    {
        let mut body = body;
        let collision_type = match body.body_type {
            BodyType::Static => CollisionType::Solid,
            BodyType::Kinematic => CollisionType::Solid,
            BodyType::Dynamic => CollisionType::Solid,
        };
        let id = self.collision_system.add_object(
            body.get_rect(),
            body.collision_layer,
            collision_type,
        );
        body.id = id;
        self.bodies.insert(id, body);
        id
    }

    /// Takes a body and its collision object out of the world and hands the
    /// body back; `None`, and nothing changes, where the id is unknown.
    pub fn remove_body(&mut self, id: u32) -> (taken: Option<PhysicsBody>)
        requires
            old(self).wf(),
        ensures
            final(self).wf(),
            taken == if old(self)@.bodies.contains_key(id) {
                Some(old(self)@.bodies[id])
            } else {
                None
            },
            final(self)@ == if old(self)@.bodies.contains_key(id) {
                WorldView {
                    bodies: old(self)@.bodies.remove(id),
                    collision: CollisionView {
                        objects: old(self)@.collision.objects.remove(id),
                        data: old(self)@.collision.data.remove(id),
                        ..old(self)@.collision
                    },
                    ..old(self)@
                }
            } else {
                old(self)@
            },
    {
        broadcast use vstd::std_specs::hash::group_hash_axioms;

        let ghost before = self.bodies@;
        match self.bodies.remove(&id) {
            Some(body) => {
                let _ = self.collision_system.remove_object(id);
                Some(body)
            },
            None => {
                assert(self.bodies@ =~= before);
                None
            },
        }
    }

    /// The body with the given id.
    pub fn get_body(&self, id: u32) -> (body: Option<&PhysicsBody>)
        ensures
            match body {
                Some(b) => self@.bodies.contains_key(id) && *b == self@.bodies[id],
                None => !self@.bodies.contains_key(id),
            },
    {
        broadcast use vstd::std_specs::hash::group_hash_axioms;

        self.bodies.get(&id)
    }

    /// Replaces the body filed under `id` by what `change` makes of it.
    fn put_body(&mut self, id: u32, body: PhysicsBody)
        requires
            old(self).wf(),
            old(self)@.bodies.contains_key(id),
            body.id == id,
        ensures
            final(self).wf(),
            final(self)@ == (WorldView {
                bodies: old(self)@.bodies.insert(id, body),
                ..old(self)@
            }),
    {
        self.bodies.insert(id, body);
    }

    /// Applies a force to a body: see `PhysicsBody::forced`. Nothing
    /// changes where the id is unknown.
    pub fn apply_force_to_body(&mut self, body_id: u32, force: Vector2)
        requires
            old(self).wf(),
        ensures
            final(self).wf(),
            final(self)@ == if old(self)@.bodies.contains_key(body_id) {
                WorldView {
                    bodies: old(self)@.bodies.insert(
                        body_id,
                        old(self)@.bodies[body_id].forced(force),
                    ),
                    ..old(self)@
                }
            } else {
                old(self)@
            },
    {
        let found = match self.get_body(body_id) {
            Some(b) => Some(*b),
            None => None,
        };
        if let Some(b) = found {
            let mut body = b;
            body.apply_force(force);
            self.put_body(body_id, body);
        }
    }

    /// Applies an impulse to a body: see `PhysicsBody::kicked`. Nothing
    /// changes where the id is unknown.
    pub fn apply_impulse_to_body(&mut self, body_id: u32, impulse: Vector2)
        requires
            old(self).wf(),
        ensures
            final(self).wf(),
            final(self)@ == if old(self)@.bodies.contains_key(body_id) {
                WorldView {
                    bodies: old(self)@.bodies.insert(
                        body_id,
                        old(self)@.bodies[body_id].kicked(impulse),
                    ),
                    ..old(self)@
                }
            } else {
                old(self)@
            },
    {
        let found = match self.get_body(body_id) {
            Some(b) => Some(*b),
            None => None,
        };
        if let Some(b) = found {
            let mut body = b;
            body.apply_impulse(impulse);
            self.put_body(body_id, body);
        }
    }

    /// Sets the velocity of a body, unless it is static. Nothing changes
    /// where the id is unknown.
    pub fn set_body_velocity(&mut self, body_id: u32, velocity: Vector2)
        requires
            old(self).wf(),
        ensures
            final(self).wf(),
            final(self)@ == old(self)@.with_body_velocity(body_id, velocity),
    {
        let found = match self.get_body(body_id) {
            Some(b) => Some(*b),
            None => None,
        };
        if let Some(b) = found {
            let mut body = b;
            body.set_velocity(velocity);
            self.put_body(body_id, body);
        }
    }

    /// Sets the position of a body, unless it is static, and moves its
    /// collision object to where the body then is. Nothing changes where
    /// the id is unknown.
    pub fn set_body_position(&mut self, body_id: u32, position: Vector2)
        requires
            old(self).wf(),
        ensures
            final(self).wf(),
            final(self)@ == old(self)@.with_body_position(body_id, position),
    {
        let found = match self.get_body(body_id) {
            Some(b) => Some(*b),
            None => None,
        };
        if let Some(b) = found {
            let mut body = b;
            body.set_position(position);
            self.put_body(body_id, body);
            self.collision_system.update_object(body_id, body.get_rect());
        }
    }

    /// The contacts of a rectangle on behalf of a layer.
    pub fn check_collisions(&self, rect: &Rect, layer: CollisionLayer) -> (results: Vec<
        CollisionResult,
    >)
        requires
            self.wf(),
        ensures
            self@.collision.lists_collisions(*rect, layer, results@),
    {
        self.collision_system.check_collisions(rect, layer)
    }

    /// Casts a ray through the collision objects of the world: see
    /// `CollisionView::casts`. The direction is not zero.
    pub fn raycast(
        &self,
        start: Vector2,
        direction: Vector2,
        max_distance: i32,
        layer: CollisionLayer,
    ) -> (found: Option<CollisionResult>)
        requires
            self.wf(),
            direction.x != 0 || direction.y != 0,
        ensures
            self@.collision.casts(start, direction, max_distance, layer, found),
    {
        self.collision_system.raycast(start, direction, max_distance, layer)
    }

    /// Sets the gravity.
    pub fn set_gravity(&mut self, gravity: Vector2)
        requires
            old(self).wf(),
        ensures
            final(self).wf(),
            final(self)@ == (WorldView { gravity, ..old(self)@ }),
    {
        self.gravity = gravity;
    }

    /// The gravity.
    pub fn get_gravity(&self) -> (gravity: Vector2)
        ensures
            gravity == self@.gravity,
    {
        self.gravity
    }

    /// Halts the simulation, or lets it run again.
    pub fn set_paused(&mut self, paused: bool)
        requires
            old(self).wf(),
        ensures
            final(self).wf(),
            final(self)@ == (WorldView { paused, ..old(self)@ }),
    {
        self.paused = paused;
    }

    /// Whether the simulation is halted.
    pub fn is_paused(&self) -> (paused: bool)
        ensures
            paused == self@.paused,
    {
        self.paused
    }

    /// Takes every body and every collision object out of the world.
    pub fn clear(&mut self)
        requires
            old(self).wf(),
        ensures
            final(self).wf(),
            final(self)@ == (WorldView {
                bodies: Map::<u32, PhysicsBody>::empty(),
                collision: CollisionView {
                    objects: Map::<u32, CollisionObject>::empty(),
                    data: Map::<u32, Map<Seq<char>, Seq<char>>>::empty(),
                    ..old(self)@.collision
                },
                ..old(self)@
            }),
    {
        self.bodies.clear();
        self.collision_system.clear();
    }

    /// The number of bodies.
    pub fn body_count(&self) -> (n: usize)
        ensures
            n == self@.bodies.len(),
    {
        self.bodies.len()
    }

    /// The ids of the bodies, each once, in no particular order.
    pub fn get_body_ids(&self) -> (ids: Vec<u32>)
        ensures
            ids@.no_duplicates(),
            forall|id: u32| ids@.contains(id) <==> self@.bodies.contains_key(id),
    {
        keys_of(&self.bodies)
    }

    /// The body with the given id, to be changed in place. The world stays
    /// well formed as long as the body keeps its id. The collision object
    /// of the body follows it at the next step.
    pub fn get_body_mut(&mut self, id: u32) -> (body: Option<&mut PhysicsBody>)
        requires
            old(self).wf(),
        ensures
            match body {
                Some(b) => {
                    &&& old(self)@.bodies.contains_key(id)
                    &&& *b == old(self)@.bodies[id]
                    &&& final(self)@ == (WorldView {
                        bodies: old(self)@.bodies.insert(id, *final(b)),
                        ..old(self)@
                    })
                    &&& final(b).id == id ==> final(self).wf()
                },
                None => !old(self)@.bodies.contains_key(id) && final(self)@ == old(self)@
                    && final(self).wf(),
            },
    {
        entry_mut(&mut self.bodies, id)
    }

    /// The collision system of the world, to be changed in place: this is
    /// how objects that are no bodies come into the world. The world stays
    /// well formed as long as the system does.
    pub fn collision_system_mut(&mut self) -> (system: &mut CollisionSystem)
        requires
            old(self).wf(),
        ensures
            system@ == old(self)@.collision,
            system.wf(),
            final(self)@ == (WorldView { collision: final(system)@, ..old(self)@ }),
            final(system).wf() ==> final(self).wf(),
    {
        &mut self.collision_system
    }

    /// The collision system of the world.
    pub fn collision_system(&self) -> (system: &CollisionSystem)
        ensures
            system@ == self@.collision,
            self.wf() ==> system.wf(),
    {
        &self.collision_system
    }

    /// Sets a body down at `target_position` and lets it answer the
    /// contacts it has there. Nothing changes where the id is unknown or
    /// the body is static.
    fn move_body_with_collision(&mut self, body_id: u32, target_position: Vector2)
        requires
            old(self).wf(),
        ensures
            final(self).wf(),
            final(self)@.collision == old(self)@.collision,
            final(self)@.gravity == old(self)@.gravity,
            final(self)@.paused == old(self)@.paused,
            final(self)@.accumulator == old(self)@.accumulator,
            final(self)@.bodies.dom() == old(self)@.bodies.dom(),
            forall|id: u32|
                id != body_id && old(self)@.bodies.contains_key(id) ==> (#[trigger] final(self)@.bodies[id])
                    == old(self)@.bodies[id],
            old(self)@.bodies.contains_key(body_id) ==> {
                let body = old(self)@.bodies[body_id];
                if body.body_type == BodyType::Static {
                    final(self)@.bodies[body_id] == body
                } else {
                    let there = placed(body, target_position);
                    exists|hits: Seq<CollisionResult>| #[trigger]
                        old(self)@.collision.lists_collisions(
                            there.rect(),
                            body.collision_layer,
                            hits,
                        ) && final(self)@.bodies[body_id] == settle(
                            there,
                            body_id,
                            there.rect(),
                            hits,
                        )
                }
            },
    {
        let found = match self.get_body(body_id) {
            Some(b) => Some(*b),
            None => None,
        };
        let mut body = match found {
            Some(b) => b,
            None => {
                return ;
            },
        };
        match body.body_type {
            BodyType::Static => {
                return ;
            },
            _ => {},
        }
        body.position = target_position;
        body.on_ground = false;
        let ghost there = body;
        let new_rect = body.get_rect();
        let collisions = self.collision_system.check_collisions(&new_rect, body.collision_layer);
        resolve_collisions(&mut body, body_id, &new_rect, &collisions);
        proof {
            lemma_settle_keeps(there, body_id, new_rect, collisions@);
            assert(old(self)@.collision.lists_collisions(
                there.rect(),
                there.collision_layer,
                collisions@,
            ));
        }
        let ghost before = self.bodies@;
        self.bodies.insert(body_id, body);
        assert(self.bodies@.dom() =~= before.dom());
    }

    /// The first half of a step: the forces act on every simulated body.
    fn integrate_bodies(&mut self, dt: u32)
        requires
            old(self).wf(),
        ensures
            final(self).wf(),
            final(self)@.collision == old(self)@.collision,
            final(self)@.gravity == old(self)@.gravity,
            final(self)@.paused == old(self)@.paused,
            final(self)@.accumulator == old(self)@.accumulator,
            final(self)@.bodies.dom() == old(self)@.bodies.dom(),
            forall|id: u32| #[trigger]
                old(self)@.bodies.contains_key(id) ==> final(self)@.bodies[id] == primed(
                    old(self)@.bodies[id],
                    old(self)@.gravity,
                    dt as int,
                ),
    {
        broadcast use vstd::std_specs::hash::group_hash_axioms;

        let body_ids = keys_of(&self.bodies);
        let ghost start = self.bodies@;
        let mut n: usize = 0;
        while n < body_ids.len()
            invariant
                n <= body_ids.len(),
                body_ids@.no_duplicates(),
                forall|id: u32| body_ids@.contains(id) <==> start.contains_key(id),
                start == old(self)@.bodies,
                self.wf(),
                self@.collision == old(self)@.collision,
                self@.gravity == old(self)@.gravity,
                self@.paused == old(self)@.paused,
                self@.accumulator == old(self)@.accumulator,
                self@.bodies.dom() == start.dom(),
                forall|j: int|
                    0 <= j < body_ids@.len() ==> self@.bodies[#[trigger] body_ids@[j]] == if j < n {
                        primed(start[body_ids@[j]], self@.gravity, dt as int)
                    } else {
                        start[body_ids@[j]]
                    },
            decreases body_ids.len() - n,
        {
            let body_id = body_ids[n];
            assert(body_ids@.contains(body_ids@[n as int]));
            let found = match self.bodies.get(&body_id) {
                Some(b) => Some(*b),
                None => None,
            };
            if let Some(b) = found {
                let mut body = b;
                if body.active && body.body_type != BodyType::Static {
                    integrate(&mut body, self.gravity, dt);
                    let ghost before = self.bodies@;
                    self.bodies.insert(body_id, body);
                    assert(self.bodies@.dom() =~= before.dom());
                }
            }
            n += 1;
        }
        proof {
            assert forall|id: u32| #[trigger] start.contains_key(id) implies self@.bodies[id]
                == primed(start[id], self@.gravity, dt as int) by {
                assert(body_ids@.contains(id));
                let j = choose|j: int| 0 <= j < body_ids@.len() && body_ids@[j] == id;
                assert(self@.bodies[body_ids@[j]] == primed(
                    start[body_ids@[j]],
                    self@.gravity,
                    dt as int,
                ));
            }
        }
    }

    /// The second half of a step: every simulated body is moved and answers
    /// its contacts.
    fn move_bodies(&mut self, dt: u32)
        requires
            old(self).wf(),
        ensures
            final(self).wf(),
            final(self)@.collision == old(self)@.collision,
            final(self)@.gravity == old(self)@.gravity,
            final(self)@.paused == old(self)@.paused,
            final(self)@.accumulator == old(self)@.accumulator,
            final(self)@.bodies.dom() == old(self)@.bodies.dom(),
            forall|id: u32| #[trigger]
                old(self)@.bodies.contains_key(id) ==> body_moved(
                    old(self)@.bodies[id],
                    id,
                    old(self)@.collision,
                    dt as int,
                    final(self)@.bodies[id],
                ),
    {
        broadcast use vstd::std_specs::hash::group_hash_axioms;

        let body_ids = keys_of(&self.bodies);
        let ghost start = self.bodies@;
        let mut n: usize = 0;
        while n < body_ids.len()
            invariant
                n <= body_ids.len(),
                body_ids@.no_duplicates(),
                forall|id: u32| body_ids@.contains(id) <==> start.contains_key(id),
                start == old(self)@.bodies,
                self.wf(),
                self@.collision == old(self)@.collision,
                self@.gravity == old(self)@.gravity,
                self@.paused == old(self)@.paused,
                self@.accumulator == old(self)@.accumulator,
                self@.bodies.dom() == start.dom(),
                forall|j: int|
                    0 <= j < n ==> body_moved(
                        start[#[trigger] body_ids@[j]],
                        body_ids@[j],
                        self@.collision,
                        dt as int,
                        self@.bodies[body_ids@[j]],
                    ),
                forall|j: int|
                    n <= j < body_ids@.len() ==> self@.bodies[#[trigger] body_ids@[j]]
                        == start[body_ids@[j]],
            decreases body_ids.len() - n,
        {
            let body_id = body_ids[n];
            assert(body_ids@.contains(body_ids@[n as int]));
            let ghost before = self@.bodies;
            let found = match self.bodies.get(&body_id) {
                Some(b) => Some(*b),
                None => None,
            };
            if let Some(body) = found {
                if body.active && body.body_type != BodyType::Static {
                    let new_position = destination_of(&body, dt);
                    self.move_body_with_collision(body_id, new_position);
                }
            }
            proof {
                assert forall|j: int| 0 <= j < n + 1 implies body_moved(
                    start[#[trigger] body_ids@[j]],
                    body_ids@[j],
                    self@.collision,
                    dt as int,
                    self@.bodies[body_ids@[j]],
                ) by {
                    if j < n {
                        assert(body_ids@[j] != body_id);
                        assert(self@.bodies[body_ids@[j]] == before[body_ids@[j]]);
                    }
                }
                assert forall|j: int| n + 1 <= j < body_ids@.len() implies self@.bodies[#[trigger] body_ids@[j]]
                    == start[body_ids@[j]] by {
                    assert(body_ids@[j] != body_id);
                    assert(self@.bodies[body_ids@[j]] == before[body_ids@[j]]);
                }
            }
            n += 1;
        }
        proof {
            assert forall|id: u32| #[trigger] start.contains_key(id) implies body_moved(
                start[id],
                id,
                self@.collision,
                dt as int,
                self@.bodies[id],
            ) by {
                assert(body_ids@.contains(id));
                let j = choose|j: int| 0 <= j < body_ids@.len() && body_ids@[j] == id;
                assert(body_moved(
                    start[body_ids@[j]],
                    body_ids@[j],
                    self@.collision,
                    dt as int,
                    self@.bodies[body_ids@[j]],
                ));
            }
        }
    }

    /// The end of a step: the collision object of each body takes the
    /// body's rectangle.
    fn sync_collision(&mut self)
        requires
            old(self).wf(),
        ensures
            final(self).wf(),
            final(self)@ == (WorldView {
                collision: CollisionView {
                    objects: resynced(old(self)@.collision.objects, old(self)@.bodies),
                    ..old(self)@.collision
                },
                ..old(self)@
            }),
    {
        broadcast use vstd::std_specs::hash::group_hash_axioms;

        let body_ids = keys_of(&self.bodies);
        let ghost start = self@.collision.objects;
        let ghost bodies = self@.bodies;
        let mut n: usize = 0;
        while n < body_ids.len()
            invariant
                n <= body_ids.len(),
                body_ids@.no_duplicates(),
                forall|id: u32| body_ids@.contains(id) <==> bodies.contains_key(id),
                self.wf(),
                start == old(self)@.collision.objects,
                self@ == (WorldView {
                    collision: CollisionView { objects: self@.collision.objects, ..old(self)@.collision },
                    ..old(self)@
                }),
                bodies == self@.bodies,
                self@.collision.objects.dom() == start.dom(),
                forall|id: u32|
                    start.contains_key(id) && !bodies.contains_key(id) ==> #[trigger] self@.collision.objects[id]
                        == start[id],
                forall|j: int|
                    0 <= j < body_ids@.len() && start.contains_key(#[trigger] body_ids@[j])
                        ==> self@.collision.objects[body_ids@[j]] == if j < n {
                        CollisionObject { rect: bodies[body_ids@[j]].rect(), ..start[body_ids@[j]] }
                    } else {
                        start[body_ids@[j]]
                    },
            decreases body_ids.len() - n,
        {
            let body_id = body_ids[n];
            assert(body_ids@.contains(body_ids@[n as int]));
            let ghost before = self@.collision.objects;
            let found = match self.bodies.get(&body_id) {
                Some(b) => Some(*b),
                None => None,
            };
            if let Some(body) = found {
                self.collision_system.update_object(body_id, body.get_rect());
                proof {
                    assert(self@.collision.objects.dom() =~= start.dom());
                    assert forall|j: int|
                        0 <= j < body_ids@.len() && start.contains_key(
                            #[trigger] body_ids@[j],
                        ) implies self@.collision.objects[body_ids@[j]] == if j < n + 1 {
                        CollisionObject { rect: bodies[body_ids@[j]].rect(), ..start[body_ids@[j]] }
                    } else {
                        start[body_ids@[j]]
                    } by {
                        if j != n {
                            assert(body_ids@[j] != body_id);
                            assert(self@.collision.objects[body_ids@[j]] == before[body_ids@[j]]);
                        }
                    }
                }
            }
            n += 1;
        }
        proof {
            assert(self@.collision.objects =~= resynced(start, bodies)) by {
                assert forall|id: u32| start.contains_key(id) implies #[trigger] self@.collision.objects[id]
                    == resynced(start, bodies)[id] by {
                    if bodies.contains_key(id) {
                        assert(body_ids@.contains(id));
                        let j = choose|j: int| 0 <= j < body_ids@.len() && body_ids@[j] == id;
                        assert(start.contains_key(body_ids@[j]));
                    }
                }
            }
        }
    }

    /// Advances the world by one step of `dt` ticks: see
    /// `WorldView::stepped`.
    pub fn step(&mut self, dt: u32)
        requires
            old(self).wf(),
        ensures
            final(self).wf(),
            old(self)@.stepped(dt as int, final(self)@),
    {
        self.integrate_bodies(dt);
        let ghost mid = self@;
        self.move_bodies(dt);
        self.sync_collision();
        proof {
            assert forall|id: u32| #[trigger] old(self)@.bodies.contains_key(id) implies body_stepped(
                old(self)@.bodies[id],
                id,
                old(self)@.collision,
                old(self)@.gravity,
                dt as int,
                self@.bodies[id],
            ) by {
                assert(mid.bodies.contains_key(id));
            }
        }
    }

    /// Hands the world `delta_time` ticks. The ticks join those that wait;
    /// for every full step among them the world advances by one step of the
    /// fixed length, and what is left goes on waiting. A paused world does
    /// not take them.
    pub fn update(&mut self, delta_time: u32)
        requires
            old(self).wf(),
        ensures
            final(self).wf(),
            old(self)@.updated(delta_time as nat, final(self)@),
    {
        if self.paused {
            return ;
        }
        let total: u64 = self.accumulator as u64 + delta_time as u64;
        let steps: u64 = total / (FIXED_TIMESTEP as u64);
        self.accumulator = (total % (FIXED_TIMESTEP as u64)) as u32;
        let mut done: u64 = 0;
        while done < steps
            invariant
                done <= steps,
                self.wf(),
                self@.accumulator == total % (FIXED_TIMESTEP as u64),
                old(self)@.waiting(0).runs(done as nat, self@.waiting(0)),
            decreases steps - done,
        {
            let ghost before = self@;
            self.step(FIXED_TIMESTEP);
            proof {
                lemma_step_ignores_waiting(before, FIXED_TIMESTEP as int, self@);
                lemma_runs_one_more(
                    old(self)@.waiting(0),
                    done as nat,
                    before.waiting(0),
                    self@.waiting(0),
                );
            }
            done += 1;
        }
    }

    /// The ids of the active bodies whose rectangle overlaps `rect`, each
    /// once, in no particular order.
    pub fn query_area(&self, rect: &Rect) -> (body_ids: Vec<u32>)
        ensures
            body_ids@.no_duplicates(),
            forall|id: u32|
                body_ids@.contains(id) <==> self@.bodies.contains_key(id) && self@.bodies[id].active
                    && self@.bodies[id].rect().overlaps(*rect),
    {
        broadcast use vstd::std_specs::hash::group_hash_axioms;

        let all = keys_of(&self.bodies);
        let mut body_ids: Vec<u32> = Vec::new();
        let mut n: usize = 0;
        while n < all.len()
            invariant
                n <= all.len(),
                all@.no_duplicates(),
                forall|id: u32| all@.contains(id) <==> self@.bodies.contains_key(id),
                body_ids@.no_duplicates(),
                forall|id: u32|
                    body_ids@.contains(id) <==> (exists|j: int|
                        0 <= j < n && all@[j] == id) && self@.bodies[id].active
                        && self@.bodies[id].rect().overlaps(*rect),
            decreases all.len() - n,
        {
            let id = all[n];
            assert(all@.contains(all@[n as int]));
            let ghost before = body_ids@;
            let mut taken = false;
            match self.bodies.get(&id) {
                Some(body) => {
                    if body.active && body.get_rect().intersects(rect) {
                        body_ids.push(id);
                        taken = true;
                    }
                },
                None => {},
            }
            proof {
                assert forall|e: u32| body_ids@.contains(e) <==> (exists|j: int|
                    0 <= j < n + 1 && all@[j] == e) && self@.bodies[e].active
                    && self@.bodies[e].rect().overlaps(*rect) by {
                    if taken {
                        assert(body_ids@ == before.push(id));
                        if before.contains(e) {
                            let i = choose|i: int| 0 <= i < before.len() && before[i] == e;
                            assert(body_ids@[i] == e);
                        }
                        if e == id {
                            assert(body_ids@[before.len() as int] == e);
                            assert(all@[n as int] == e);
                        }
                        if body_ids@.contains(e) && e != id {
                            let i = choose|i: int| 0 <= i < body_ids@.len() && body_ids@[i] == e;
                            assert(before[i] == e);
                        }
                    } else {
                        assert(body_ids@ == before);
                    }
                    if (exists|j: int| 0 <= j < n + 1 && all@[j] == e) && e != id {
                        let j = choose|j: int| 0 <= j < n + 1 && all@[j] == e;
                        assert(j < n);
                    }
                }
                if taken {
                    assert forall|i: int, k: int|
                        0 <= i < body_ids@.len() && 0 <= k < body_ids@.len() && i
                            != k implies body_ids@[i] != body_ids@[k] by {
                        if i == before.len() && k < before.len() {
                            assert(before.contains(before[k]));
                            if before[k] == id {
                                let j = choose|j: int| 0 <= j < n && all@[j] == id;
                            }
                        }
                        if k == before.len() && i < before.len() {
                            assert(before.contains(before[i]));
                            if before[i] == id {
                                let j = choose|j: int| 0 <= j < n && all@[j] == id;
                            }
                        }
                    }
                }
            }
            n += 1;
        }
        proof {
            assert forall|id: u32|
                body_ids@.contains(id) <==> self@.bodies.contains_key(id) && self@.bodies[id].active
                    && self@.bodies[id].rect().overlaps(*rect) by {
                if self@.bodies.contains_key(id) {
                    assert(all@.contains(id));
                    let j = choose|j: int| 0 <= j < all@.len() && all@[j] == id;
                    assert(0 <= j < n && all@[j] == id);
                }
                if exists|j: int| 0 <= j < n && all@[j] == id {
                    let j = choose|j: int| 0 <= j < n && all@[j] == id;
                    assert(all@.contains(all@[j]));
                }
            }
        }
        body_ids
    }
}

/// Answering contacts changes neither what a body is nor the id it is filed
/// under.
pub proof fn lemma_settle_keeps(body: PhysicsBody, id: u32, rect: Rect, hits: Seq<CollisionResult>)
    ensures
        settle(body, id, rect, hits).id == body.id,
        settle(body, id, rect, hits).body_type == body.body_type,
        settle(body, id, rect, hits).active == body.active,
        settle(body, id, rect, hits).size == body.size,
        settle(body, id, rect, hits).collision_layer == body.collision_layer,
    decreases hits.len(),
{
    if hits.len() > 0 {
        lemma_settle_keeps(body, id, rect, hits.drop_last());
    }
}

/// A run followed by a step is a run of one step more.
pub proof fn lemma_runs_one_more(first: WorldView, n: nat, mid: WorldView, last: WorldView)
    requires
        first.runs(n, mid),
        mid.stepped(FIXED_TIMESTEP as int, last),
    ensures
        first.runs(n + 1, last),
{
    assert(first.runs(((n + 1) - 1) as nat, mid));
}

/// A step goes the same way whatever number of ticks is waiting.
pub proof fn lemma_step_ignores_waiting(before: WorldView, dt: int, after: WorldView)
    requires
        before.stepped(dt, after),
    ensures
        before.waiting(0).stepped(dt, after.waiting(0)),
{
    assert forall|id: u32| #[trigger] before.waiting(0).bodies.contains_key(id) implies body_stepped(
        before.waiting(0).bodies[id],
        id,
        before.waiting(0).collision,
        before.waiting(0).gravity,
        dt,
        after.waiting(0).bodies[id],
    ) by {
        assert(before.bodies.contains_key(id));
    }
}

/// One run after another is a run of as many steps as the two together.
pub proof fn lemma_runs_compose(first: WorldView, n: nat, mid: WorldView, m: nat, last: WorldView)
    requires
        first.runs(n, mid),
        mid.runs(m, last),
    ensures
        first.runs(n + m, last),
    decreases m,
{
    if m > 0 {
        let before_last = choose|w: WorldView|
            mid.runs((m - 1) as nat, w) && #[trigger] w.stepped(FIXED_TIMESTEP as int, last);
        lemma_runs_compose(first, n, mid, (m - 1) as nat, before_last);
        lemma_runs_one_more(first, (n + m - 1) as nat, before_last, last);
    }
}

/// A run keeps gravity, the pause and the waiting ticks.
pub proof fn lemma_run_keeps_settings(first: WorldView, n: nat, last: WorldView)
    requires
        first.runs(n, last),
    ensures
        last.gravity == first.gravity,
        last.paused == first.paused,
        last.accumulator == first.accumulator,
        last.bodies.dom() == first.bodies.dom(),
    decreases n,
{
    if n > 0 {
        let before_last = choose|w: WorldView|
            first.runs((n - 1) as nat, w) && #[trigger] w.stepped(FIXED_TIMESTEP as int, last);
        lemma_run_keeps_settings(first, (n - 1) as nat, before_last);
    }
}

/// However the ticks are cut up, as many steps come due, and as many ticks
/// are left waiting: what is left of the first lot counts toward the
/// second.
pub proof fn lemma_steps_add_up(waiting: nat, first: nat, second: nat)
    ensures
        steps_due(waiting, first) + steps_due(left_over(waiting, first), second) == steps_due(
            waiting,
            first + second,
        ),
        left_over(left_over(waiting, first), second) == left_over(waiting, first + second),
{
    let f = FIXED_TIMESTEP as int;
    let a = (waiting + first) as int;
    let q = a / f;
    let r = a % f;
    assert(a == q * f + r && 0 <= r < f) by {
        vstd::arithmetic::div_mod::lemma_fundamental_div_mod(a, f);
    }
    let b = r + second;
    let q2 = b / f;
    let r2 = b % f;
    assert(b == q2 * f + r2 && 0 <= r2 < f) by {
        vstd::arithmetic::div_mod::lemma_fundamental_div_mod(b, f);
    }
    let all = (waiting + first + second) as int;
    assert(all == (q + q2) * f + r2) by (nonlinear_arith)
        requires
            all == a + second,
            a == q * f + r,
            r + second == q2 * f + r2,
    ;
    vstd::arithmetic::div_mod::lemma_fundamental_div_mod_converse(all, f, q + q2, r2);
}

/// A whole number of steps' worth of ticks makes exactly that number of
/// steps come due, and leaves waiting what waited before.
pub proof fn lemma_whole_steps_come_due(waiting: nat, n: nat)
    requires
        waiting < FIXED_TIMESTEP,
    ensures
        steps_due(waiting, n * (FIXED_TIMESTEP as nat)) == n,
        left_over(waiting, n * (FIXED_TIMESTEP as nat)) == waiting,
{
    let f = FIXED_TIMESTEP as int;
    vstd::arithmetic::div_mod::lemma_fundamental_div_mod_converse(
        waiting + n * f,
        f,
        n as int,
        waiting as int,
    );
}

/// Two updates in a row do what one update with the ticks of both does:
/// the same number of steps is run, and the same ticks are left waiting.
pub proof fn lemma_updates_add_up(
    start: WorldView,
    first: nat,
    mid: WorldView,
    second: nat,
    end: WorldView,
)
    requires
        start.updated(first, mid),
        mid.updated(second, end),
    ensures
        start.updated(first + second, end),
{
    if !start.paused {
        let n = steps_due(start.accumulator, first);
        let m = steps_due(mid.accumulator, second);
        lemma_run_keeps_settings(start.waiting(0), n, mid.waiting(0));
        lemma_steps_add_up(start.accumulator, first, second);
        lemma_runs_compose(start.waiting(0), n, mid.waiting(0), m, end.waiting(0));
    }
}

/// A step leaves a static body as it is.
pub proof fn lemma_step_keeps_static(before: WorldView, dt: int, after: WorldView, id: u32)
    requires
        before.stepped(dt, after),
        before.bodies.contains_key(id),
        before.bodies[id].body_type == BodyType::Static,
    ensures
        after.bodies.contains_key(id),
        after.bodies[id] == before.bodies[id],
{
}

/// No number of steps moves a static body, or changes it at all.
pub proof fn lemma_run_keeps_static(first: WorldView, n: nat, last: WorldView, id: u32)
    requires
        first.runs(n, last),
        first.bodies.contains_key(id),
        first.bodies[id].body_type == BodyType::Static,
    ensures
        last.bodies.contains_key(id),
        last.bodies[id] == first.bodies[id],
    decreases n,
{
    if n > 0 {
        let before_last = choose|w: WorldView|
            first.runs((n - 1) as nat, w) && #[trigger] w.stepped(FIXED_TIMESTEP as int, last);
        lemma_run_keeps_static(first, (n - 1) as nat, before_last, id);
        lemma_step_keeps_static(before_last, FIXED_TIMESTEP as int, last, id);
    }
}

/// Setting its position or its velocity, a force and an impulse all leave a
/// static body as it is.
pub proof fn lemma_static_body_yields_to_nothing(body: PhysicsBody, value: Vector2)
    requires
        body.body_type == BodyType::Static,
    ensures
        body.with_position(value) == body,
        body.with_velocity(value) == body,
        body.forced(value) == body,
        body.kicked(value) == body,
{
}

/// A contact with a solid object stops the body along the axis of the
/// contact and leaves the component of its velocity across that axis as it
/// was; a downward contact puts the body on the ground.
pub proof fn lemma_solid_contact_stops_one_axis(
    body: PhysicsBody,
    id: u32,
    rect: Rect,
    hit: CollisionResult,
)
    requires
        hit.object.id != id,
        hit.object.collision_type == CollisionType::Solid,
    ensures
        hit.direction == Direction::Left || hit.direction == Direction::Right ==> answer(
            body,
            id,
            rect,
            hit,
        ).velocity == (Vector2 { x: 0, y: body.velocity.y }),
        hit.direction == Direction::Up || hit.direction == Direction::Down ==> answer(
            body,
            id,
            rect,
            hit,
        ).velocity == (Vector2 { x: body.velocity.x, y: 0 }),
        hit.direction == Direction::Down ==> answer(body, id, rect, hit).on_ground,
        answer(body, id, rect, hit).position == (Vector2 {
            x: pushed_out(rect, hit).x,
            y: pushed_out(rect, hit).y,
        }),
{
}

/// A platform lets a rising body through, and any body that does not come
/// down on it; it takes up a body that does not rise and is in contact
/// downward, stops its fall and puts it on the ground.
pub proof fn lemma_platform_is_one_way(body: PhysicsBody, id: u32, rect: Rect, hit: CollisionResult)
    requires
        hit.object.id != id,
        hit.object.collision_type == CollisionType::Platform,
    ensures
        body.velocity.y < 0 ==> answer(body, id, rect, hit) == body,
        hit.direction != Direction::Down ==> answer(body, id, rect, hit) == body,
        body.velocity.y >= 0 && hit.direction == Direction::Down ==> {
            let after = answer(body, id, rect, hit);
            &&& after.on_ground
            &&& after.velocity == (Vector2 { x: body.velocity.x, y: 0 })
            &&& after.position.x == body.position.x
            &&& after.position.y == saturate(hit.object.rect.top_edge() - rect.height)
        },
{
}

/// Triggers and sensors never change a body.
pub proof fn lemma_triggers_change_nothing(body: PhysicsBody, id: u32, rect: Rect, hit: CollisionResult)
    requires
        hit.object.collision_type == CollisionType::Trigger || hit.object.collision_type
            == CollisionType::Sensor,
    ensures
        answer(body, id, rect, hit) == body,
{
}

/// What a step makes of a body is settled by the body and by what the
/// collision system holds.
pub proof fn lemma_body_step_unique(
    body: PhysicsBody,
    id: u32,
    collision: CollisionView,
    gravity: Vector2,
    dt: int,
    first: PhysicsBody,
    second: PhysicsBody,
)
    requires
        body_stepped(body, id, collision, gravity, dt, first),
        body_stepped(body, id, collision, gravity, dt, second),
    ensures
        first == second,
{
    let ready = primed(body, gravity, dt);
    if simulated(ready) {
        let there = arrived(ready, dt);
        let a = choose|hits: Seq<CollisionResult>| #[trigger]
            collision.lists_collisions(there.rect(), ready.collision_layer, hits) && first
                == settle(there, id, there.rect(), hits);
        let b = choose|hits: Seq<CollisionResult>| #[trigger]
            collision.lists_collisions(there.rect(), ready.collision_layer, hits) && second
                == settle(there, id, there.rect(), hits);
        lemma_collisions_unique(collision, there.rect(), ready.collision_layer, a, b);
    }
}

/// A step is settled by the world it starts from: the simulation is
/// deterministic.
pub proof fn lemma_step_unique(before: WorldView, dt: int, first: WorldView, second: WorldView)
    requires
        before.stepped(dt, first),
        before.stepped(dt, second),
    ensures
        first == second,
{
    assert forall|id: u32| first.bodies.contains_key(id) implies #[trigger] first.bodies[id]
        == second.bodies[id] by {
        assert(before.bodies.contains_key(id));
        lemma_body_step_unique(
            before.bodies[id],
            id,
            before.collision,
            before.gravity,
            dt,
            first.bodies[id],
            second.bodies[id],
        );
    }
    assert(first.bodies =~= second.bodies);
}

/// A run of a number of steps is settled by the world it starts from.
pub proof fn lemma_run_unique(start: WorldView, n: nat, first: WorldView, second: WorldView)
    requires
        start.runs(n, first),
        start.runs(n, second),
    ensures
        first == second,
    decreases n,
{
    if n > 0 {
        let a = choose|w: WorldView|
            start.runs((n - 1) as nat, w) && #[trigger] w.stepped(FIXED_TIMESTEP as int, first);
        let b = choose|w: WorldView|
            start.runs((n - 1) as nat, w) && #[trigger] w.stepped(FIXED_TIMESTEP as int, second);
        lemma_run_unique(start, (n - 1) as nat, a, b);
        lemma_step_unique(a, FIXED_TIMESTEP as int, first, second);
    }
}

/// An update is settled by the world it starts from and the ticks it is
/// handed.
pub proof fn lemma_update_unique(start: WorldView, ticks: nat, first: WorldView, second: WorldView)
    requires
        start.updated(ticks, first),
        start.updated(ticks, second),
    ensures
        first == second,
{
    if !start.paused {
        lemma_run_unique(
            start.waiting(0),
            steps_due(start.accumulator, ticks),
            first.waiting(0),
            second.waiting(0),
        );
        assert(first == first.waiting(0).waiting(first.accumulator));
        assert(second == second.waiting(0).waiting(second.accumulator));
    }
}

/// However the ticks are split over two updates, the world ends as after
/// one update with all of them: the same steps were run, and the same
/// ticks are left waiting.
pub proof fn lemma_split_updates_end_alike(
    start: WorldView,
    first: nat,
    mid: WorldView,
    second: nat,
    end: WorldView,
    at_once: WorldView,
)
    requires
        start.updated(first, mid),
        mid.updated(second, end),
        start.updated(first + second, at_once),
    ensures
        end == at_once,
{
    lemma_updates_add_up(start, first, mid, second, end);
    lemma_update_unique(start, first + second, end, at_once);
}

/// After the forces of a step, a dynamic body is no faster along either
/// axis than its greatest speed, where that is not negative.
pub proof fn lemma_speed_is_held(body: PhysicsBody, gravity: Vector2, dt: int)
    requires
        body.body_type == BodyType::Dynamic,
        body.max_velocity.x >= 0,
        body.max_velocity.y >= 0,
    ensures
        -body.max_velocity.x <= integrated(body, gravity, dt).velocity.x <= body.max_velocity.x,
        -body.max_velocity.y <= integrated(body, gravity, dt).velocity.y <= body.max_velocity.y,
        integrated(body, gravity, dt).acceleration == Vector2::origin(),
        integrated(body, gravity, dt).position == body.position,
{
}

} // verus!
