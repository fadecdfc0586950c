//! Enemies: what kind they are, and the state machine that walks them,
//! lets them chase the player and attack.

use vstd::prelude::*;
use crate::config::UNIT;
use crate::math::{divide, multiply, quotient, saturate, saturate_to_i32, Vector2};
use crate::object::manager::reequipped;
use crate::object::{
    Component, ComponentKind, ComponentValue, GameObject, GameObjectManager, Health, ObjectId,
    PhysicsComponent, Transform,
};
use crate::physics::world::WorldView;
use crate::physics::PhysicsWorld;
use crate::sprite::saturate_ticks;
use crate::util::{lemma_pick_done, lemma_pick_next, picked_from, Result};

pub mod factory;

verus! {

/// What an enemy is doing.
#[derive(Debug, Clone, Copy, PartialEq, Eq, Structural)]
pub enum BadguyState {
    Idle,
    Walking,
    Chasing,
    Attacking,
    Stunned,
    Dead,
}

/// The state machine of an enemy.
#[derive(Debug, Clone, Copy, PartialEq, Eq, Structural)]
pub struct BadguyAI {
    pub state: BadguyState,
    /// Units per second.
    pub move_speed: i32,
    /// How near the player must come to be chased.
    pub detection_range: i32,
    /// How near the player must be to be attacked.
    pub attack_range: i32,
    /// Which way the enemy walks: minus one to the left, one to the right.
    pub direction: i32,
    /// Ticks spent in the state.
    pub state_timer: u32,
    /// How far from where it started the enemy walks before it turns.
    pub patrol_distance: i32,
    /// Where the enemy started; the origin until that is known.
    pub start_position: Vector2,
}

impl BadguyAI {
    /// An enemy that walks to the right, notices the player within 150
    /// units, attacks within 32, and patrols 100 units from where it
    /// starts.
    pub fn new(move_speed: i32) -> (ai: Self)
        ensures
            ai == (BadguyAI {
                state: BadguyState::Walking,
                move_speed,
                detection_range: 150000,
                attack_range: 32000,
                direction: UNIT,
                state_timer: 0,
                patrol_distance: 100000,
                start_position: Vector2::origin(),
            }),
    {
        Self {
            state: BadguyState::Walking,
            move_speed,
            detection_range: 150000,
            attack_range: 32000,
            direction: UNIT,
            state_timer: 0,
            patrol_distance: 100000,
            start_position: Vector2::zero(),
        }
    }

    /// The same with another patrol distance.
    pub fn with_patrol_distance(self, distance: i32) -> (ai: Self)
        ensures
            ai == (BadguyAI { patrol_distance: distance, ..self }),
    {
        let mut ai = self;
        ai.patrol_distance = distance;
        ai
    }

    /// The same with another detection range.
    pub fn with_detection_range(self, range: i32) -> (ai: Self)
        ensures
            ai == (BadguyAI { detection_range: range, ..self }),
    {
        let mut ai = self;
        ai.detection_range = range;
        ai
    }
}

/// The kinds of enemy.
#[derive(Debug, Clone, Copy, PartialEq, Eq, Structural)]
pub enum BadguyType {
    /// Walks.
    Goomba,
    /// Hurts to touch.
    Spiky,
    /// Jumps.
    Jumpy,
    /// Flies.
    Flying,
}

/// What an enemy of a kind does to the player and is worth.
#[derive(Debug, Clone, Copy, PartialEq, Eq, Structural)]
pub struct Badguy {
    pub badguy_type: BadguyType,
    pub damage: i32,
    /// Points for defeating it.
    pub points: i32,
    pub can_be_stomped: bool,
    pub can_be_kicked: bool,
}

impl Badguy {
    /// The enemy of a kind. Each does one point of damage; a goomba is
    /// worth 100 points, a spiky 200, a jumpy 150 and a flying one 250.
    /// Goombas and jumpies can be stomped, and only a spiky can be kicked.
    pub open spec fn of(badguy_type: BadguyType) -> Self {
        match badguy_type {
            BadguyType::Goomba => Badguy {
                badguy_type,
                damage: 1,
                points: 100,
                can_be_stomped: true,
                can_be_kicked: false,
            },
            BadguyType::Spiky => Badguy {
                badguy_type,
                damage: 1,
                points: 200,
                can_be_stomped: false,
                can_be_kicked: true,
            },
            BadguyType::Jumpy => Badguy {
                badguy_type,
                damage: 1,
                points: 150,
                can_be_stomped: true,
                can_be_kicked: false,
            },
            BadguyType::Flying => Badguy {
                badguy_type,
                damage: 1,
                points: 250,
                can_be_stomped: false,
                can_be_kicked: false,
            },
        }
    }

    /// The enemy of a kind: see `of`.
    pub fn new(badguy_type: BadguyType) -> (badguy: Self)
        ensures
            badguy == Self::of(badguy_type),
    {
        let (damage, points, can_be_stomped, can_be_kicked) = match badguy_type {
            BadguyType::Goomba => (1, 100, true, false),
            BadguyType::Spiky => (1, 200, false, true),
            BadguyType::Jumpy => (1, 150, true, false),
            BadguyType::Flying => (1, 250, false, false),
        };
        Self { badguy_type, damage, points, can_be_stomped, can_be_kicked }
    }
}

/// Ticks an idle enemy waits before it walks: a second.
pub const IDLE_TIME: u32 = 60000;

/// Ticks an attack lasts: half a second.
pub const ATTACK_TIME: u32 = 30000;

/// Ticks an enemy stays stunned: two seconds.
pub const STUN_TIME: u32 = 120000;

/// How far above an enemy the player must be to stomp it: more than 16
/// units.
pub const STOMP_HEIGHT: i32 = 16000;

/// A distance is less than `range`; `gap` is the square of the distance.
pub open spec fn nearer_than(gap: int, range: int) -> bool {
    range > 0 && gap < range * range
}

/// A distance is more than `range`; `gap` is the square of the distance.
pub open spec fn farther_than(gap: int, range: int) -> bool {
    range < 0 || gap > range * range
}

/// A distance is more than one and a half times `range`; `gap` is the
/// square of the distance.
pub open spec fn lost_beyond(gap: int, range: int) -> bool {
    range < 0 || 4 * gap > 9 * (range * range)
}

/// What the state machine asks of the body of the enemy.
#[derive(Debug, Clone, Copy, PartialEq, Eq, Structural)]
pub enum Drive {
    /// Leave the velocity as it is.
    Keep,
    /// Set the horizontal velocity, and keep the vertical.
    Horizontal(i32),
}

impl BadguyAI {
    /// The horizontal velocity of an enemy that walks: its speed in its
    /// direction.
    pub open spec fn pace(self) -> int {
        saturate(quotient(self.direction * self.move_speed, UNIT as int))
    }

    /// The state machine after it has noted where the enemy started and
    /// counted the ticks.
    pub open spec fn noted(self, position: Vector2, delta_time: u32) -> Self {
        BadguyAI {
            start_position: if self.start_position == Vector2::origin() {
                position
            } else {
                self.start_position
            },
            state_timer: saturate_ticks(self.state_timer + delta_time) as u32,
            ..self
        }
    }

    /// The state machine turned into another state, its count of ticks
    /// starting over.
    pub open spec fn turned_to(self, state: BadguyState) -> Self {
        BadguyAI { state, state_timer: 0, ..self }
    }

    /// The state machine `delta_time` ticks later, for an enemy at
    /// `position`, with the player at `player` where there is one.
    ///
    /// An idle enemy walks after a second. A walking enemy chases the
    /// player as soon as the player is nearer than the detection range;
    /// else it turns round whenever it is farther from where it started
    /// than its patrol distance. A chasing enemy gives up and walks when
    /// the player is farther than one and a half times the detection
    /// range, attacks when the player is nearer than the attack range, and
    /// else faces the player. An attack lasts half a second and ends in a
    /// chase; a stunned enemy walks again after two seconds. A dead enemy
    /// stays dead.
    pub open spec fn advanced(self, position: Vector2, player: Option<Vector2>, delta_time: u32) -> Self {
        let ai = self.noted(position, delta_time);
        match ai.state {
            BadguyState::Idle => if ai.state_timer > IDLE_TIME {
                ai.turned_to(BadguyState::Walking)
            } else {
                ai
            },
            BadguyState::Walking => if player is Some && nearer_than(
                position.gap_squared(player->0),
                ai.detection_range as int,
            ) {
                ai.turned_to(BadguyState::Chasing)
            } else if farther_than(
                position.gap_squared(ai.start_position),
                ai.patrol_distance as int,
            ) {
                BadguyAI { direction: saturate(-ai.direction) as i32, ..ai }
            } else {
                ai
            },
            BadguyState::Chasing => match player {
                Some(p) => if lost_beyond(position.gap_squared(p), ai.detection_range as int) {
                    ai.turned_to(BadguyState::Walking)
                } else if nearer_than(position.gap_squared(p), ai.attack_range as int) {
                    ai.turned_to(BadguyState::Attacking)
                } else {
                    BadguyAI {
                        direction: if p.x > position.x {
                            UNIT
                        } else {
                            (-UNIT) as i32
                        },
                        ..ai
                    }
                },
                None => ai,
            },
            BadguyState::Attacking => if ai.state_timer > ATTACK_TIME {
                ai.turned_to(BadguyState::Chasing)
            } else {
                ai
            },
            BadguyState::Stunned => if ai.state_timer > STUN_TIME {
                ai.turned_to(BadguyState::Walking)
            } else {
                ai
            },
            BadguyState::Dead => ai,
        }
    }

    /// What an update asks of the body: an enemy that was not dead and now
    /// walks or chases moves at its pace, one that is stunned stands, and
    /// any other keeps its velocity. `before` is the state the update
    /// found.
    pub open spec fn drive(self, before: BadguyState) -> Drive {
        if before == BadguyState::Dead {
            Drive::Keep
        } else {
            match self.state {
                BadguyState::Walking | BadguyState::Chasing => Drive::Horizontal(self.pace() as i32),
                BadguyState::Stunned | BadguyState::Dead => Drive::Horizontal(0),
                _ => Drive::Keep,
            }
        }
    }

    /// Lets `delta_time` ticks pass and says what to ask of the body: see
    /// `advanced` and `drive`.
    pub fn advance(&mut self, position: Vector2, player: Option<Vector2>, delta_time: u32) -> (drive:
        Drive)
        ensures
            *final(self) == old(self).advanced(position, player, delta_time),
            drive == final(self).drive(old(self).state),
    {
        let found = self.state;
        if self.start_position == Vector2::zero() {
            self.start_position = position;
        }
        self.state_timer = self.state_timer.saturating_add(delta_time);
        match self.state {
            BadguyState::Idle => {
                if self.state_timer > IDLE_TIME {
                    self.state = BadguyState::Walking;
                    self.state_timer = 0;
                }
            },
            BadguyState::Walking => {
                let chase = match player {
                    Some(p) => is_nearer(position.distance_squared(p), self.detection_range),
                    None => false,
                };
                if chase {
                    self.state = BadguyState::Chasing;
                    self.state_timer = 0;
                } else {
                    if is_farther(
                        position.distance_squared(self.start_position),
                        self.patrol_distance,
                    ) {
                        self.direction = saturate_to_i32(-(self.direction as i128));
                    }
                }
            },
            BadguyState::Chasing => {
                if let Some(p) = player {
                    let gap = position.distance_squared(p);
                    if is_lost(gap, self.detection_range) {
                        self.state = BadguyState::Walking;
                        self.state_timer = 0;
                    } else if is_nearer(gap, self.attack_range) {
                        self.state = BadguyState::Attacking;
                        self.state_timer = 0;
                    } else {
                        self.direction = if p.x > position.x {
                            UNIT
                        } else {
                            -UNIT
                        };
                    }
                }
            },
            BadguyState::Attacking => {
                if self.state_timer > ATTACK_TIME {
                    self.state = BadguyState::Chasing;
                    self.state_timer = 0;
                }
            },
            BadguyState::Stunned => {
                if self.state_timer > STUN_TIME {
                    self.state = BadguyState::Walking;
                    self.state_timer = 0;
                }
            },
            BadguyState::Dead => {
                return Drive::Keep;
            },
        }
        match self.state {
            BadguyState::Walking | BadguyState::Chasing => {
                Drive::Horizontal(
                    saturate_to_i32(
                        divide(
                            multiply(self.direction as i64, self.move_speed as i64),
                            UNIT as i128,
                        ),
                    ),
                )
            },
            BadguyState::Stunned | BadguyState::Dead => Drive::Horizontal(0),
            _ => Drive::Keep,
        }
    }

    /// Stuns the enemy: it falls into the stunned state, its count of
    /// ticks starting over.
    pub fn stun(&mut self)
        ensures
            *final(self) == old(self).turned_to(BadguyState::Stunned),
    {
        self.state = BadguyState::Stunned;
        self.state_timer = 0;
    }
}

/// Whether a distance is less than `range`, given its square.
fn is_nearer(gap: i128, range: i32) -> (near: bool)
    requires
        0 <= gap <= 0x4_0000_0000_0000_0000,
    ensures
        near == nearer_than(gap as int, range as int),
{
    range > 0 && gap < multiply(range as i64, range as i64)
}

/// Whether a distance is more than `range`, given its square.
fn is_farther(gap: i128, range: i32) -> (far: bool)
    requires
        0 <= gap <= 0x4_0000_0000_0000_0000,
    ensures
        far == farther_than(gap as int, range as int),
{
    range < 0 || gap > multiply(range as i64, range as i64)
}

/// Whether a distance is more than one and a half times `range`, given its
/// square.
fn is_lost(gap: i128, range: i32) -> (lost: bool)
    requires
        0 <= gap <= 0x4_0000_0000_0000_0000,
    ensures
        lost == lost_beyond(gap as int, range as int),
{
    let square: i128 = multiply(range as i64, range as i64);
    assert(0 <= square <= 0x4000_0000_0000_0000) by (nonlinear_arith)
        requires
            square == (range as int) * (range as int),
            -0x8000_0000 <= range <= 0x8000_0000,
    ;
    range < 0 || 4 * gap > 9 * square
}

/// A walking enemy starts to chase exactly when the player is nearer than
/// the detection range, and a chasing enemy goes back to walking exactly
/// when the player is farther than one and a half times that range.
pub proof fn lemma_chase_begins_and_ends(
    ai: BadguyAI,
    position: Vector2,
    player: Vector2,
    delta_time: u32,
)
    ensures
        ai.state == BadguyState::Walking ==> (ai.advanced(position, Some(player), delta_time).state
            == BadguyState::Chasing <==> nearer_than(
            position.gap_squared(player),
            ai.detection_range as int,
        )),
        ai.state == BadguyState::Walking ==> ai.advanced(position, Some(player), delta_time).state
            == BadguyState::Chasing || ai.advanced(position, Some(player), delta_time).state
            == BadguyState::Walking,
        ai.state == BadguyState::Chasing ==> (ai.advanced(position, Some(player), delta_time).state
            == BadguyState::Walking <==> lost_beyond(
            position.gap_squared(player),
            ai.detection_range as int,
        )),
{
}

/// With a detection range of 150 units the player is noticed at any
/// distance under 150 units and lost at any distance over 225.
pub proof fn lemma_detection_at_150(gap: int)
    requires
        gap >= 0,
    ensures
        nearer_than(gap, 150000) <==> gap < 150000 * 150000,
        lost_beyond(gap, 150000) <==> gap > 225000 * 225000,
{
}

/// A dead enemy stays dead, and nothing is asked of its body.
pub proof fn lemma_dead_stays_dead(
    ai: BadguyAI,
    position: Vector2,
    player: Option<Vector2>,
    delta_time: u32,
)
    requires
        ai.state == BadguyState::Dead,
    ensures
        ai.advanced(position, player, delta_time).state == BadguyState::Dead,
        ai.advanced(position, player, delta_time).drive(ai.state) == Drive::Keep,
{
}

/// No state but the dead state leads to the dead state.
pub proof fn lemma_no_update_kills(
    ai: BadguyAI,
    position: Vector2,
    player: Option<Vector2>,
    delta_time: u32,
)
    requires
        ai.state != BadguyState::Dead,
    ensures
        ai.advanced(position, player, delta_time).state != BadguyState::Dead,
{
}

/// What an update needs of an enemy: where it is, which body moves it, and
/// its state machine. An entity that is inactive or lacks one of the three
/// is not updated.
pub open spec fn thinker(object: GameObject) -> Option<(Vector2, u32, BadguyAI)> {
    match (
        object.component::<Transform>(),
        object.component::<PhysicsComponent>(),
        object.component::<BadguyAI>(),
    ) {
        (Some(t), Some(p), Some(ai)) => if object.active {
            Some((t.position, p.body_id, ai))
        } else {
            None
        },
        _ => None,
    }
}

/// The components of an entity after its state machine was updated.
pub open spec fn thought(object: GameObject, player: Option<Vector2>, delta_time: u32) -> Map<
    ComponentKind,
    ComponentValue,
> {
    match thinker(object) {
        Some((position, _, ai)) => object.components@.insert(
            ComponentKind::BadguyAI,
            ComponentValue::BadguyAI(ai.advanced(position, player, delta_time)),
        ),
        None => object.components@,
    }
}

/// The world after the body of an enemy did what the update of its state
/// machine asked: its horizontal velocity is set and its vertical velocity
/// stays. Nothing changes where nothing is asked or the world has no such
/// body.
pub open spec fn driven(world: WorldView, object: GameObject, player: Option<Vector2>, delta_time: u32) -> WorldView {
    match thinker(object) {
        Some((position, body_id, ai)) => match ai.advanced(position, player, delta_time).drive(
            ai.state,
        ) {
            Drive::Horizontal(vx) => if world.bodies.contains_key(body_id) {
                world.with_body_velocity(
                    body_id,
                    Vector2 { x: vx, y: world.bodies[body_id].velocity.y },
                )
            } else {
                world
            },
            Drive::Keep => world,
        },
        None => world,
    }
}

/// The world after the enemies with the given ids were driven in turn.
pub open spec fn driven_all(
    world: WorldView,
    objects: Map<ObjectId, GameObject>,
    player: Option<Vector2>,
    delta_time: u32,
    ids: Seq<ObjectId>,
) -> WorldView
    decreases ids.len(),
{
    if ids.len() == 0 {
        world
    } else {
        driven(
            driven_all(world, objects, player, delta_time, ids.drop_last()),
            objects[ids.last()],
            player,
            delta_time,
        )
    }
}

/// Where the player is: the position of the transform of the entity with
/// the given id.
pub open spec fn player_at(objects: Map<ObjectId, GameObject>, player_id: Option<ObjectId>) -> Option<
    Vector2,
> {
    match player_id {
        Some(id) => if objects.contains_key(id) {
            match objects[id].component::<Transform>() {
                Some(t) => Some(t.position),
                None => None,
            }
        } else {
            None
        },
        None => None,
    }
}

/// Whether a contact is a stomp: the player is more than 16 units above
/// the enemy.
pub open spec fn stomps(player: Vector2, badguy: Vector2) -> bool {
    player.y < badguy.y - STOMP_HEIGHT
}

/// Where an entity is, the origin where it has no transform.
pub open spec fn place_of(object: GameObject) -> Vector2 {
    match object.component::<Transform>() {
        Some(t) => t.position,
        None => Vector2::origin(),
    }
}

/// Updates the enemies.
pub struct BadguySystem {
    pub player_id: Option<ObjectId>,
}

impl BadguySystem {
    /// A system that knows of no player.
    pub fn new() -> (system: Self)
        ensures
            system.player_id is None,
    {
        Self { player_id: None }
    }

    /// Tells the system which entity is the player.
    pub fn set_player_id(&mut self, player_id: ObjectId)
        ensures
            final(self).player_id == Some(player_id),
    {
        self.player_id = Some(player_id);
    }

    /// Updates the state machine of one enemy and drives its body: see
    /// `thought` and `driven`. Nothing changes where the id is unknown.
    pub fn update_badguy(
        &self,
        badguy_id: ObjectId,
        object_manager: &mut GameObjectManager,
        physics_world: &mut PhysicsWorld,
        player_position: Option<Vector2>,
        delta_time: u32,
    ) -> (done: Result<()>)
        requires
            old(object_manager).wf(),
            old(physics_world).wf(),
        ensures
            done is Ok,
            final(object_manager).wf(),
            final(physics_world).wf(),
            final(object_manager)@.next_id == old(object_manager)@.next_id,
            final(object_manager)@.objects.dom() == old(object_manager)@.objects.dom(),
            forall|id: ObjectId|
                id != badguy_id && old(object_manager)@.objects.contains_key(id) ==> (
                #[trigger] final(object_manager)@.objects[id]) == old(object_manager)@.objects[id],
            old(object_manager)@.objects.contains_key(badguy_id) ==> reequipped(
                old(object_manager)@.objects[badguy_id],
                thought(old(object_manager)@.objects[badguy_id], player_position, delta_time),
                final(object_manager)@.objects[badguy_id],
            ),
            final(physics_world)@ == if old(object_manager)@.objects.contains_key(badguy_id) {
                driven(
                    old(physics_world)@,
                    old(object_manager)@.objects[badguy_id],
                    player_position,
                    delta_time,
                )
            } else {
                old(physics_world)@
            },
    {
        let ghost objects = object_manager@.objects;
        proof {
            object_manager.lemma_wf_view();
        }
        let (position, body_id) = {
            let object = match object_manager.get_object(badguy_id) {
                Some(obj) => obj,
                None => {
                    return Ok(());
                },
            };
            if !object.active {
                proof {
                    assert(object.components@ =~= thought(*object, player_position, delta_time));
                }
                return Ok(());
            }
            let position = match object.get_component::<Transform>() {
                Some(t) => t.position,
                None => {
                    return Ok(());
                },
            };
            let body_id = match object.get_component::<PhysicsComponent>() {
                Some(comp) => comp.body_id,
                None => {
                    return Ok(());
                },
            };
            (position, body_id)
        };
        let drive = match object_manager.get_object_mut(badguy_id) {
            Some(object) => match object.get_component_mut::<BadguyAI>() {
                Some(ai) => ai.advance(position, player_position, delta_time),
                None => {
                    return Ok(());
                },
            },
            None => {
                return Ok(());
            },
        };
        proof {
            assert(object_manager@.objects.dom() =~= objects.dom());
        }
        match drive {
            Drive::Horizontal(vx) => {
                let current = match physics_world.get_body(body_id) {
                    Some(body) => Some(body.velocity),
                    None => None,
                };
                if let Some(current_velocity) = current {
                    physics_world.set_body_velocity(body_id, Vector2::new(vx, current_velocity.y));
                }
            },
            Drive::Keep => {},
        }
        Ok(())
    }

    /// The ids of the entities that are enemies, each once, in no
    /// particular order.
    pub fn badguy_ids(object_manager: &GameObjectManager) -> (ids: Vec<ObjectId>)
        requires
            object_manager.wf(),
        ensures
            ids@.no_duplicates(),
            forall|id: ObjectId|
                ids@.contains(id) <==> object_manager@.objects.contains_key(id)
                    && object_manager@.objects[id].component::<Badguy>() is Some,
    {
        let all = object_manager.get_object_ids();
        let ghost keep = |id: ObjectId| object_manager@.objects[id].component::<Badguy>() is Some;
        let mut ids: Vec<ObjectId> = Vec::new();
        let mut n: usize = 0;
        while n < all.len()
            invariant
                n <= all.len(),
                object_manager.wf(),
                all@.no_duplicates(),
                forall|id: ObjectId| all@.contains(id) <==> object_manager@.objects.contains_key(id),
                keep == |id: ObjectId| object_manager@.objects[id].component::<Badguy>() is Some,
                picked_from(all@, n as int, keep, ids@),
            decreases all.len() - n,
        {
            let id = all[n];
            assert(all@.contains(all@[n as int]));
            let ghost before = ids@;
            match object_manager.get_object(id) {
                Some(object) => {
                    if object.has_component::<Badguy>() {
                        ids.push(id);
                    }
                },
                None => {},
            }
            proof {
                lemma_pick_next(all@, n as int, keep, before, ids@);
            }
            n += 1;
        }
        proof {
            lemma_pick_done(all@, keep, ids@);
        }
        ids
    }

    /// Updates every enemy: the state machine of each entity that has the
    /// enemy component runs, and its body is driven. The enemies are taken
    /// in some order, each once.
    pub fn update(
        &mut self,
        object_manager: &mut GameObjectManager,
        physics_world: &mut PhysicsWorld,
        delta_time: u32,
    ) -> (done: Result<()>)
        requires
            old(object_manager).wf(),
            old(physics_world).wf(),
        ensures
            done is Ok,
            final(self).player_id == old(self).player_id,
            final(object_manager).wf(),
            final(physics_world).wf(),
            final(object_manager)@.next_id == old(object_manager)@.next_id,
            final(object_manager)@.objects.dom() == old(object_manager)@.objects.dom(),
            forall|id: ObjectId| #[trigger]
                old(object_manager)@.objects.contains_key(id) ==> if old(
                    object_manager,
                )@.objects[id].component::<Badguy>() is Some {
                    reequipped(
                        old(object_manager)@.objects[id],
                        thought(
                            old(object_manager)@.objects[id],
                            player_at(old(object_manager)@.objects, old(self).player_id),
                            delta_time,
                        ),
                        final(object_manager)@.objects[id],
                    )
                } else {
                    final(object_manager)@.objects[id] == old(object_manager)@.objects[id]
                },
            exists|ids: Seq<ObjectId>|
                {
                    &&& ids.no_duplicates()
                    &&& forall|id: ObjectId|
                        ids.contains(id) <==> old(object_manager)@.objects.contains_key(id) && old(
                            object_manager,
                        )@.objects[id].component::<Badguy>() is Some
                    &&& final(physics_world)@ == #[trigger] driven_all(
                        old(physics_world)@,
                        old(object_manager)@.objects,
                        player_at(old(object_manager)@.objects, old(self).player_id),
                        delta_time,
                        ids,
                    )
                },
    {
        let ghost start = object_manager@.objects;
        let player_position = match self.player_id {
            Some(player_id) => match object_manager.get_object(player_id) {
                Some(object) => {
                    proof {
                        object_manager.lemma_wf_view();
                    }
                    match object.get_component::<Transform>() {
                        Some(t) => Some(t.position),
                        None => None,
                    }
                },
                None => None,
            },
            None => None,
        };
        let badguy_ids = Self::badguy_ids(object_manager);
        let mut n: usize = 0;
        while n < badguy_ids.len()
            invariant
                n <= badguy_ids.len(),
                self.player_id == old(self).player_id,
                start == old(object_manager)@.objects,
                player_position == player_at(start, self.player_id),
                badguy_ids@.no_duplicates(),
                forall|id: ObjectId|
                    badguy_ids@.contains(id) <==> start.contains_key(id) && start[id].component::<
                        Badguy,
                    >() is Some,
                object_manager.wf(),
                physics_world.wf(),
                object_manager@.next_id == old(object_manager)@.next_id,
                object_manager@.objects.dom() == start.dom(),
                forall|id: ObjectId|
                    start.contains_key(id) && !badguy_ids@.contains(id) ==> (
                    #[trigger] object_manager@.objects[id]) == start[id],
                forall|j: int|
                    0 <= j < n ==> reequipped(
                        start[#[trigger] badguy_ids@[j]],
                        thought(start[badguy_ids@[j]], player_position, delta_time),
                        object_manager@.objects[badguy_ids@[j]],
                    ),
                forall|j: int|
                    n <= j < badguy_ids@.len() ==> object_manager@.objects[#[trigger] badguy_ids@[j]]
                        == start[badguy_ids@[j]],
                physics_world@ == driven_all(
                    old(physics_world)@,
                    start,
                    player_position,
                    delta_time,
                    badguy_ids@.take(n as int),
                ),
            decreases badguy_ids.len() - n,
        {
            let badguy_id = badguy_ids[n];
            assert(badguy_ids@.contains(badguy_ids@[n as int]));
            let ghost before = object_manager@.objects;
            proof {
                assert(badguy_ids@.take(n + 1).drop_last() =~= badguy_ids@.take(n as int));
                assert(badguy_ids@.take(n + 1).last() == badguy_id);
            }
            let _ = self.update_badguy(
                badguy_id,
                object_manager,
                physics_world,
                player_position,
                delta_time,
            );
            proof {
                assert forall|j: int| 0 <= j < n + 1 implies reequipped(
                    start[#[trigger] badguy_ids@[j]],
                    thought(start[badguy_ids@[j]], player_position, delta_time),
                    object_manager@.objects[badguy_ids@[j]],
                ) by {
                    if j < n {
                        assert(badguy_ids@[j] != badguy_id);
                        assert(badguy_ids@.contains(badguy_ids@[j]));
                        assert(object_manager@.objects[badguy_ids@[j]] == before[badguy_ids@[j]]);
                    }
                }
                assert forall|j: int|
                    n + 1 <= j < badguy_ids@.len() implies object_manager@.objects[#[trigger] badguy_ids@[j]]
                    == start[badguy_ids@[j]] by {
                    assert(badguy_ids@[j] != badguy_id);
                    assert(badguy_ids@.contains(badguy_ids@[j]));
                    assert(object_manager@.objects[badguy_ids@[j]] == before[badguy_ids@[j]]);
                }
            }
            n += 1;
        }
        proof {
            assert(badguy_ids@.take(n as int) =~= badguy_ids@);
            assert forall|id: ObjectId| #[trigger] start.contains_key(id) implies if start[id].component::<
                Badguy,
            >() is Some {
                reequipped(
                    start[id],
                    thought(start[id], player_position, delta_time),
                    object_manager@.objects[id],
                )
            } else {
                object_manager@.objects[id] == start[id]
            } by {
                if start[id].component::<Badguy>() is Some {
                    assert(badguy_ids@.contains(id));
                    let j = choose|j: int| 0 <= j < badguy_ids@.len() && badguy_ids@[j] == id;
                    assert(reequipped(
                        start[badguy_ids@[j]],
                        thought(start[badguy_ids@[j]], player_position, delta_time),
                        object_manager@.objects[badguy_ids@[j]],
                    ));
                }
            }
            assert(physics_world@ == driven_all(
                old(physics_world)@,
                start,
                player_position,
                delta_time,
                badguy_ids@,
            ));
        }
        Ok(())
    }

    /// Settles a contact between the player and an enemy. Where the player
    /// is more than 16 units above the enemy and the enemy can be stomped,
    /// the enemy is stunned; else the player takes the damage that the
    /// enemy does. Nothing changes where the enemy is unknown.
    pub fn handle_player_collision(
        &self,
        badguy_id: ObjectId,
        player_id: ObjectId,
        object_manager: &mut GameObjectManager,
    ) -> (done: Result<()>)
        requires
            old(object_manager).wf(),
        ensures
            done is Ok,
            final(object_manager).wf(),
            final(object_manager)@.next_id == old(object_manager)@.next_id,
            final(object_manager)@.objects.dom() == old(object_manager)@.objects.dom(),
            forall|id: ObjectId|
                old(object_manager)@.objects.contains_key(id) ==> reequipped(
                    old(object_manager)@.objects[id],
                    met(old(object_manager)@.objects, badguy_id, player_id, id),
                    #[trigger] final(object_manager)@.objects[id],
                ),
    {
        let ghost objects = object_manager@.objects;
        proof {
            object_manager.lemma_wf_view();
        }
        let (can_be_stomped, damage, badguy_pos) = {
            let badguy_obj = match object_manager.get_object(badguy_id) {
                Some(obj) => obj,
                None => {
                    return Ok(());
                },
            };
            let (can_be_stomped, damage) = match badguy_obj.get_component::<Badguy>() {
                Some(b) => (b.can_be_stomped, b.damage),
                None => (false, 1),
            };
            (can_be_stomped, damage, badguy_obj.position())
        };
        let player_pos = match object_manager.get_object(player_id) {
            Some(obj) => obj.position(),
            None => Vector2::zero(),
        };
        let is_stomping = (player_pos.y as i64) < badguy_pos.y as i64 - STOMP_HEIGHT as i64;
        if is_stomping && can_be_stomped {
            match object_manager.get_object_mut(badguy_id) {
                Some(badguy_obj) => {
                    match badguy_obj.get_component_mut::<BadguyAI>() {
                        Some(ai) => {
                            ai.stun();
                        },
                        None => {},
                    }
                },
                None => {},
            }
        } else {
            match object_manager.get_object_mut(player_id) {
                Some(player_obj) => {
                    match player_obj.get_component_mut::<Health>() {
                        Some(health) => {
                            let _ = health.take_damage(damage);
                        },
                        None => {},
                    }
                },
                None => {},
            }
        }
        proof {
            assert(object_manager@.objects.dom() =~= objects.dom());
        }
        Ok(())
    }
}

/// Whether a contact between the two entities is a stomp that counts: the
/// player is more than 16 units above the enemy, and the enemy is of a
/// kind that can be stomped.
pub open spec fn stomped(objects: Map<ObjectId, GameObject>, badguy_id: ObjectId, player_id: ObjectId) -> bool {
    let badguy = objects[badguy_id];
    let player = if objects.contains_key(player_id) {
        place_of(objects[player_id])
    } else {
        Vector2::origin()
    };
    stomps(player, place_of(badguy)) && badguy.component::<Badguy>() is Some && badguy.component::<
        Badguy,
    >()->0.can_be_stomped
}

/// The damage an enemy does: that of its enemy component, and one where it
/// has none.
pub open spec fn damage_of(badguy: GameObject) -> i32 {
    match badguy.component::<Badguy>() {
        Some(b) => b.damage,
        None => 1,
    }
}

/// The components of entity `id` after a contact between the player and an
/// enemy was settled.
pub open spec fn met(
    objects: Map<ObjectId, GameObject>,
    badguy_id: ObjectId,
    player_id: ObjectId,
    id: ObjectId,
) -> Map<ComponentKind, ComponentValue> {
    let object = objects[id];
    if !objects.contains_key(badguy_id) {
        object.components@
    } else if stomped(objects, badguy_id, player_id) {
        match object.component::<BadguyAI>() {
            Some(ai) => if id == badguy_id {
                object.components@.insert(
                    ComponentKind::BadguyAI,
                    ComponentValue::BadguyAI(ai.turned_to(BadguyState::Stunned)),
                )
            } else {
                object.components@
            },
            None => object.components@,
        }
    } else {
        match object.component::<Health>() {
            Some(health) => if id == player_id {
                object.components@.insert(
                    ComponentKind::Health,
                    ComponentValue::Health(health.damaged(damage_of(objects[badguy_id]))),
                )
            } else {
                object.components@
            },
            None => object.components@,
        }
    }
}

} // verus!
