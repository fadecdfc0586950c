//! The player: the controller that turns input into movement, and the world
//! of the game.

use vstd::prelude::*;
use crate::math::{magnitude, saturate, saturate_to_i32, Rect, Vector2};
use crate::object::manager::reequipped;
use crate::object::{
    Component, ComponentKind, ComponentValue, GameObject, GameObjectManager, ObjectId,
    PhysicsComponent, SpriteComponent,
};
use crate::physics::world::WorldView;
use crate::physics::{PhysicsBody, PhysicsWorld};
use crate::sprite::animations;
use crate::sprite::{sheet_frame, Animation, AnimationFrame, Sprite};
use crate::util::Result;

pub mod world;

pub use world::GameWorld;

verus! {

/// What the player is doing.
#[derive(Debug, Clone, Copy, PartialEq, Eq, Structural)]
pub enum PlayerState {
    Idle,
    Walking,
    Running,
    Jumping,
    Falling,
    Ducking,
    Climbing,
    Dead,
}

/// The state of the player.
#[derive(Debug, Clone, Copy, PartialEq, Eq, Structural)]
pub struct PlayerController {
    pub state: PlayerState,
    /// Walking speed, in units per second.
    pub move_speed: i32,
    /// Running speed.
    pub run_speed: i32,
    /// Vertical velocity at the start of a jump; up is negative.
    pub jump_velocity: i32,
    /// Whether the player has touched ground since the last jump.
    pub can_jump: bool,
    pub on_ground: bool,
    pub facing_right: bool,
    /// While this is set, damage has no effect.
    pub invulnerable: bool,
    /// Ticks for which the player stays invulnerable.
    pub invulnerability_time: u32,
    pub lives: i32,
    pub score: i32,
    pub coins: i32,
}

impl PlayerController {
    /// The player at the start: idle, in the air, facing right, with three
    /// lives.
    pub open spec fn initial() -> Self {
        PlayerController {
            state: PlayerState::Idle,
            move_speed: 150000,
            run_speed: 250000,
            jump_velocity: (-400000) as i32,
            can_jump: true,
            on_ground: false,
            facing_right: true,
            invulnerable: false,
            invulnerability_time: 0,
            lives: 3,
            score: 0,
            coins: 0,
        }
    }

    /// After damage: a life less, two seconds of invulnerability, and dead
    /// when no life is left. Damage to an invulnerable player changes
    /// nothing.
    pub open spec fn hurt(self) -> Self {
        if self.invulnerable {
            self
        } else {
            PlayerController {
                lives: saturate(self.lives - 1) as i32,
                invulnerable: true,
                invulnerability_time: 120000,
                state: if self.lives - 1 <= 0 {
                    PlayerState::Dead
                } else {
                    self.state
                },
                ..self
            }
        }
    }

    /// After a coin: a coin more, 200 points, and a life more with every
    /// hundredth coin.
    pub open spec fn with_coin(self) -> Self {
        let coins = saturate(self.coins + 1);
        PlayerController {
            coins: coins as i32,
            score: saturate(self.score + 200) as i32,
            lives: if magnitude(coins) % 100 == 0 {
                saturate(self.lives + 1) as i32
            } else {
                self.lives
            },
            ..self
        }
    }

    /// The player at the start: see `initial`.
    pub fn new() -> (player: Self)
        ensures
            player == Self::initial(),
    {
        Self {
            state: PlayerState::Idle,
            move_speed: 150000,
            run_speed: 250000,
            jump_velocity: -400000,
            can_jump: true,
            on_ground: false,
            facing_right: true,
            invulnerable: false,
            invulnerability_time: 0,
            lives: 3,
            score: 0,
            coins: 0,
        }
    }

    /// Starts a jump, where the player may jump and stands on the ground.
    pub fn jump(&mut self)
        ensures
            *final(self) == if old(self).can_jump && old(self).on_ground {
                PlayerController { state: PlayerState::Jumping, can_jump: false, ..*old(self) }
            } else {
                *old(self)
            },
    {
        if self.can_jump && self.on_ground {
            self.state = PlayerState::Jumping;
            self.can_jump = false;
        }
    }

    /// Turns left, and walks where the player stands on the ground.
    pub fn start_moving_left(&mut self)
        ensures
            *final(self) == (PlayerController {
                facing_right: false,
                state: if old(self).on_ground {
                    PlayerState::Walking
                } else {
                    old(self).state
                },
                ..*old(self)
            }),
    {
        self.facing_right = false;
        if self.on_ground {
            self.state = PlayerState::Walking;
        }
    }

    /// Turns right, and walks where the player stands on the ground.
    pub fn start_moving_right(&mut self)
        ensures
            *final(self) == (PlayerController {
                facing_right: true,
                state: if old(self).on_ground {
                    PlayerState::Walking
                } else {
                    old(self).state
                },
                ..*old(self)
            }),
    {
        self.facing_right = true;
        if self.on_ground {
            self.state = PlayerState::Walking;
        }
    }

    /// Comes to a halt, where the player walks or runs on the ground.
    pub fn stop_horizontal_movement(&mut self)
        ensures
            *final(self) == if old(self).on_ground && (old(self).state == PlayerState::Walking
                || old(self).state == PlayerState::Running) {
                PlayerController { state: PlayerState::Idle, ..*old(self) }
            } else {
                *old(self)
            },
    {
        if self.on_ground {
            match self.state {
                PlayerState::Walking | PlayerState::Running => {
                    self.state = PlayerState::Idle;
                },
                _ => {},
            }
        }
    }

    /// Ducks, where the player stands on the ground.
    pub fn start_ducking(&mut self)
        ensures
            *final(self) == if old(self).on_ground {
                PlayerController { state: PlayerState::Ducking, ..*old(self) }
            } else {
                *old(self)
            },
    {
        if self.on_ground {
            self.state = PlayerState::Ducking;
        }
    }

    /// Gets up, where the player ducks.
    pub fn stop_ducking(&mut self)
        ensures
            *final(self) == if old(self).state == PlayerState::Ducking {
                PlayerController { state: PlayerState::Idle, ..*old(self) }
            } else {
                *old(self)
            },
    {
        match self.state {
            PlayerState::Ducking => {
                self.state = PlayerState::Idle;
            },
            _ => {},
        }
    }

    /// Takes damage: see `hurt`.
    pub fn take_damage(&mut self)
        ensures
            *final(self) == old(self).hurt(),
    {
        if !self.invulnerable {
            self.lives = saturate_to_i32(self.lives as i128 - 1);
            self.invulnerable = true;
            self.invulnerability_time = 120000;
            if self.lives <= 0 {
                self.state = PlayerState::Dead;
            }
        }
    }

    /// Adds points to the score, which saturates.
    pub fn add_score(&mut self, points: i32)
        ensures
            *final(self) == (PlayerController {
                score: saturate(old(self).score + points) as i32,
                ..*old(self)
            }),
    {
        self.score = saturate_to_i32(self.score as i128 + points as i128);
    }

    /// Takes a coin: see `with_coin`.
    pub fn add_coin(&mut self)
        ensures
            *final(self) == old(self).with_coin(),
    {
        self.coins = saturate_to_i32(self.coins as i128 + 1);
        self.add_score(200);
        let count: i64 = if self.coins >= 0 {
            self.coins as i64
        } else {
            -(self.coins as i64)
        };
        if count % 100 == 0 {
            self.lives = saturate_to_i32(self.lives as i128 + 1);
        }
    }

    /// Whether the player is not dead.
    pub fn is_alive(&self) -> (alive: bool)
        ensures
            alive == (self.state != PlayerState::Dead),
    {
        match self.state {
            PlayerState::Dead => false,
            _ => true,
        }
    }
}

/// What the player asks for in one frame.
#[derive(Debug, Clone, Copy, PartialEq, Eq, Structural)]
pub struct PlayerInput {
    /// The key to move left is held.
    pub move_left: bool,
    /// The key to move right is held.
    pub move_right: bool,
    /// The key to run is held.
    pub run: bool,
    /// The key to jump went down in this frame.
    pub jump: bool,
    /// The key to duck is held.
    pub duck: bool,
}

impl PlayerInput {
    /// Which way the player wants to go: one to the right, minus one to the
    /// left, zero neither way. Right wins where both are asked for.
    pub open spec fn heading(self) -> int {
        if self.move_right {
            1
        } else if self.move_left {
            -1
        } else {
            0
        }
    }
}

impl PlayerController {
    /// After `delta_time` ticks: the time of invulnerability runs down, and
    /// invulnerability ends with it.
    pub open spec fn aged(self, delta_time: u32) -> Self {
        if self.invulnerable {
            if self.invulnerability_time > delta_time {
                PlayerController {
                    invulnerability_time: (self.invulnerability_time - delta_time) as u32,
                    ..self
                }
            } else {
                PlayerController { invulnerability_time: 0, invulnerable: false, ..self }
            }
        } else {
            self
        }
    }

    /// Whether a jump asked for is honored: the player may jump and stands
    /// on the ground.
    pub open spec fn jumps(self, input: PlayerInput) -> bool {
        input.jump && self.can_jump && self.on_ground
    }

    /// The player after hearing the input of a frame. It faces the way it
    /// wants to go. On the ground it walks that way, runs where running is
    /// asked for, and halts where it wants to go neither way. A jump that
    /// is honored puts it in the jumping state and uses up the jump.
    /// Ducking takes it down where it stands on the ground, and it gets up
    /// when ducking is no longer asked for.
    pub open spec fn commanded(self, input: PlayerInput) -> Self {
        let turned = PlayerController {
            facing_right: if input.move_right {
                true
            } else if input.move_left {
                false
            } else {
                self.facing_right
            },
            state: if self.on_ground {
                if input.heading() != 0 {
                    if input.run {
                        PlayerState::Running
                    } else {
                        PlayerState::Walking
                    }
                } else if self.state == PlayerState::Walking || self.state == PlayerState::Running {
                    PlayerState::Idle
                } else {
                    self.state
                }
            } else {
                self.state
            },
            ..self
        };
        let leapt = if turned.jumps(input) {
            PlayerController { state: PlayerState::Jumping, can_jump: false, ..turned }
        } else {
            turned
        };
        if input.duck {
            if leapt.on_ground {
                PlayerController { state: PlayerState::Ducking, ..leapt }
            } else {
                leapt
            }
        } else if leapt.state == PlayerState::Ducking {
            PlayerController { state: PlayerState::Idle, ..leapt }
        } else {
            leapt
        }
    }

    /// The velocity the player asks of its body: sideways its speed the
    /// way it wants to go, the running speed where running is asked for,
    /// and none while it ducks; upward the jump velocity where a jump was
    /// honored, else what the body has. `self` is the player after it heard
    /// the input.
    pub open spec fn steering(self, input: PlayerInput, jumped: bool, current: Vector2) -> Vector2 {
        let speed = if input.run {
            self.run_speed
        } else {
            self.move_speed
        };
        Vector2 {
            x: if self.state != PlayerState::Ducking {
                saturate(input.heading() * speed) as i32
            } else {
                0
            },
            y: if jumped {
                self.jump_velocity
            } else {
                current.y
            },
        }
    }

    /// The player after looking at its body. In the air it is jumping
    /// while it rises and falling else. On the ground it may jump again,
    /// and is idle where it wants to go neither way and does not duck.
    pub open spec fn observed(self, on_ground: bool, velocity_y: i32, heading: int) -> Self {
        if !on_ground {
            PlayerController {
                on_ground,
                state: if velocity_y < 0 {
                    PlayerState::Jumping
                } else {
                    PlayerState::Falling
                },
                ..self
            }
        } else {
            PlayerController {
                on_ground,
                can_jump: true,
                state: if heading == 0 && self.state != PlayerState::Ducking {
                    PlayerState::Idle
                } else {
                    self.state
                },
                ..self
            }
        }
    }

    /// The velocity that a frame asks of the body of the player; `None`
    /// where the player is dead or has no body.
    pub open spec fn asked(self, input: PlayerInput, delta_time: u32, body: Option<PhysicsBody>) -> Option<
        Vector2,
    > {
        let aged = self.aged(delta_time);
        if aged.state == PlayerState::Dead || body is None {
            None
        } else {
            Some(aged.commanded(input).steering(input, aged.jumps(input), body->0.velocity))
        }
    }

    /// The player after a frame: time passed, the input was heard, the
    /// body was asked for a velocity and looked at. A dead player only
    /// ages, and a player without body only hears the input.
    pub open spec fn played(self, input: PlayerInput, delta_time: u32, body: Option<PhysicsBody>) -> Self {
        let aged = self.aged(delta_time);
        if aged.state == PlayerState::Dead {
            aged
        } else {
            let heard = aged.commanded(input);
            match body {
                Some(b) => {
                    let moving = b.with_velocity(
                        heard.steering(input, aged.jumps(input), b.velocity),
                    );
                    heard.observed(moving.on_ground, moving.velocity.y, input.heading())
                },
                None => heard,
            }
        }
    }

    /// Lets `delta_time` ticks pass: see `aged`.
    pub fn age(&mut self, delta_time: u32)
        ensures
            *final(self) == old(self).aged(delta_time),
    {
        if self.invulnerable {
            if self.invulnerability_time > delta_time {
                self.invulnerability_time = self.invulnerability_time - delta_time;
            } else {
                self.invulnerability_time = 0;
                self.invulnerable = false;
            }
        }
    }

    /// Hears the input of a frame; says whether a jump was honored. See
    /// `commanded`.
    pub fn command(&mut self, input: &PlayerInput) -> (jumped: bool)
        ensures
            *final(self) == old(self).commanded(*input),
            jumped == old(self).jumps(*input),
    {
        let mut moving = false;
        if input.move_left {
            moving = true;
            self.start_moving_left();
        }
        if input.move_right {
            moving = true;
            self.start_moving_right();
        }
        if !moving {
            self.stop_horizontal_movement();
        }
        if input.run {
            if moving && self.on_ground {
                self.state = PlayerState::Running;
            }
        }
        let jumped = input.jump && self.can_jump && self.on_ground;
        if input.jump {
            self.jump();
        }
        if input.duck {
            self.start_ducking();
        } else {
            self.stop_ducking();
        }
        jumped
    }

    /// The velocity to ask of the body: see `steering`.
    pub fn steer(&self, input: &PlayerInput, jumped: bool, current: Vector2) -> (velocity: Vector2)
        ensures
            velocity == self.steering(*input, jumped, current),
    {
        let speed = if input.run {
            self.run_speed
        } else {
            self.move_speed
        };
        let heading: i128 = if input.move_right {
            1
        } else if input.move_left {
            -1
        } else {
            0
        };
        let x = match self.state {
            PlayerState::Ducking => 0,
            _ => saturate_to_i32(heading * (speed as i128)),
        };
        let y = if jumped {
            self.jump_velocity
        } else {
            current.y
        };
        Vector2::new(x, y)
    }

    /// Looks at the body: see `observed`.
    pub fn observe(&mut self, on_ground: bool, velocity_y: i32, input: &PlayerInput)
        ensures
            *final(self) == old(self).observed(on_ground, velocity_y, input.heading()),
    {
        self.on_ground = on_ground;
        if !self.on_ground {
            if velocity_y < 0 {
                self.state = PlayerState::Jumping;
            } else {
                self.state = PlayerState::Falling;
            }
        } else {
            self.can_jump = true;
            if !input.move_left && !input.move_right {
                match self.state {
                    PlayerState::Ducking => {},
                    _ => {
                        self.state = PlayerState::Idle;
                    },
                }
            }
        }
    }
}

/// With one life left, damage takes the last life and kills the player;
/// damage that follows while the player is invulnerable changes nothing.
pub proof fn lemma_last_life(player: PlayerController)
    requires
        player.lives == 1,
        !player.invulnerable,
    ensures
        player.hurt().lives == 0,
        player.hurt().state == PlayerState::Dead,
        player.hurt().invulnerable,
        player.hurt().hurt() == player.hurt(),
{
}

/// Damage never reaches an invulnerable player.
pub proof fn lemma_invulnerable_is_unhurt(player: PlayerController)
    requires
        player.invulnerable,
    ensures
        player.hurt() == player,
{
}

/// A dead player stays dead whatever is asked of it.
pub proof fn lemma_dead_player_stays(
    player: PlayerController,
    input: PlayerInput,
    delta_time: u32,
    body: Option<PhysicsBody>,
)
    requires
        player.state == PlayerState::Dead,
    ensures
        player.played(input, delta_time, body).state == PlayerState::Dead,
        player.asked(input, delta_time, body) is None,
{
}

/// What an update needs of the player: the body that moves it and its
/// controller. An entity that is inactive or lacks one of the two is not
/// updated.
pub open spec fn pilot(object: GameObject) -> Option<(u32, PlayerController)> {
    match (object.component::<PhysicsComponent>(), object.component::<PlayerController>()) {
        (Some(p), Some(c)) => if object.active {
            Some((p.body_id, c))
        } else {
            None
        },
        _ => None,
    }
}

/// The body with the given id, where the world has one.
pub open spec fn body_in(world: WorldView, id: u32) -> Option<PhysicsBody> {
    if world.bodies.contains_key(id) {
        Some(world.bodies[id])
    } else {
        None
    }
}

/// `objects_after` and `world_after` are the entities and the world after
/// one frame was played for the player: the controller of the player is as
/// `PlayerController::played` says, its body has the velocity that
/// `PlayerController::asked` says, and nothing else has changed. Nothing
/// changes at all where the id is unknown, the entity is inactive or it
/// lacks the physics component or the controller.
pub open spec fn player_frame(
    objects: Map<ObjectId, GameObject>,
    world: WorldView,
    player_id: ObjectId,
    input: PlayerInput,
    delta_time: u32,
    objects_after: Map<ObjectId, GameObject>,
    world_after: WorldView,
) -> bool {
    &&& objects_after.dom() == objects.dom()
    &&& forall|id: ObjectId|
        id != player_id && objects.contains_key(id) ==> (#[trigger] objects_after[id])
            == objects[id]
    &&& objects.contains_key(player_id) ==> {
        let object = objects[player_id];
        match pilot(object) {
            Some((body_id, controller)) => {
                let body = body_in(world, body_id);
                &&& reequipped(
                    object,
                    object.components@.insert(
                        ComponentKind::PlayerController,
                        ComponentValue::PlayerController(
                            controller.played(input, delta_time, body),
                        ),
                    ),
                    objects_after[player_id],
                )
                &&& world_after == match controller.asked(input, delta_time, body) {
                    Some(v) => world.with_body_velocity(body_id, v),
                    None => world,
                }
            },
            None => {
                &&& reequipped(object, object.components@, objects_after[player_id])
                &&& world_after == world
            },
        }
    }
    &&& !objects.contains_key(player_id) ==> world_after == world
}

/// `objects_after` are the entities after the sprite of the player was
/// made to show what the player does: see `shows_player`. Nothing changes
/// where the id is unknown, the entity is inactive or it lacks the
/// controller or the sprite.
pub open spec fn player_shown(
    objects: Map<ObjectId, GameObject>,
    player_id: ObjectId,
    objects_after: Map<ObjectId, GameObject>,
) -> bool {
    &&& objects_after.dom() == objects.dom()
    &&& forall|id: ObjectId|
        id != player_id && objects.contains_key(id) ==> (#[trigger] objects_after[id])
            == objects[id]
    &&& objects.contains_key(player_id) ==> {
        let before = objects[player_id];
        let after = objects_after[player_id];
        &&& after.wf()
        &&& after.differs_in_components_only(&before)
        &&& match (before.component::<PlayerController>(), before.component::<SpriteComponent>()) {
            (Some(c), Some(s)) => if before.active {
                &&& after.components@.dom() == before.components@.dom()
                &&& forall|kind: ComponentKind|
                    kind != ComponentKind::Sprite && before.components@.contains_key(kind)
                        ==> #[trigger] after.components@[kind] == before.components@[kind]
                &&& after.component::<SpriteComponent>() is Some
                &&& after.component::<SpriteComponent>()->0.visible == s.visible
                &&& after.component::<SpriteComponent>()->0.layer == s.layer
                &&& shows_player(
                    s.sprite,
                    c.facing_right,
                    c.state,
                    after.component::<SpriteComponent>()->0.sprite,
                )
            } else {
                after.components@ == before.components@
            },
            _ => after.components@ == before.components@,
        }
    }
}

/// Turns input into movement of the player.
pub struct PlayerInputSystem;

impl PlayerInputSystem {
    pub fn new() -> Self {
        Self
    }

    /// Plays one frame for the player: see `PlayerController::played` for
    /// what becomes of the controller and `PlayerController::asked` for the
    /// velocity that its body is given. Nothing changes where the id is
    /// unknown, the entity is inactive or it lacks the physics component
    /// or the controller.
    pub fn update(
        &self,
        player_id: ObjectId,
        object_manager: &mut GameObjectManager,
        physics_world: &mut PhysicsWorld,
        input: &PlayerInput,
        delta_time: u32,
    ) -> (done: Result<()>)
        requires
            old(object_manager).wf(),
            old(physics_world).wf(),
        ensures
            done is Ok,
            final(object_manager).wf(),
            final(physics_world).wf(),
            final(object_manager)@.next_id == old(object_manager)@.next_id,
            player_frame(
                old(object_manager)@.objects,
                old(physics_world)@,
                player_id,
                *input,
                delta_time,
                final(object_manager)@.objects,
                final(physics_world)@,
            ),
    {
        let ghost objects = object_manager@.objects;
        proof {
            object_manager.lemma_wf_view();
        }
        let player_obj = match object_manager.get_object_mut(player_id) {
            Some(obj) => obj,
            None => {
                return Ok(());
            },
        };
        if !player_obj.active {
            proof {
                assert(object_manager@.objects.dom() =~= objects.dom());
            }
            return Ok(());
        }
        let body_id = match player_obj.get_component::<PhysicsComponent>() {
            Some(comp) => comp.body_id,
            None => {
                proof {
                    assert(object_manager@.objects.dom() =~= objects.dom());
                }
                return Ok(());
            },
        };
        let controller = match player_obj.get_component_mut::<PlayerController>() {
            Some(c) => c,
            None => {
                proof {
                    assert(object_manager@.objects.dom() =~= objects.dom());
                }
                return Ok(());
            },
        };
        controller.age(delta_time);
        if !controller.is_alive() {
            proof {
                assert(object_manager@.objects.dom() =~= objects.dom());
            }
            return Ok(());
        }
        let jumped = controller.command(input);
        let current = match physics_world.get_body(body_id) {
            Some(body) => Some(body.velocity),
            None => None,
        };
        if let Some(current_velocity) = current {
            let new_velocity = controller.steer(input, jumped, current_velocity);
            physics_world.set_body_velocity(body_id, new_velocity);
        }
        let seen = match physics_world.get_body(body_id) {
            Some(body) => Some((body.on_ground, body.velocity.y)),
            None => None,
        };
        if let Some((on_ground, velocity_y)) = seen {
            controller.observe(on_ground, velocity_y, input);
        }
        proof {
            assert(object_manager@.objects.dom() =~= objects.dom());
        }
        Ok(())
    }
}

/// The frames of the animation that shows the player in a state. A player
/// that climbs keeps the animation it has.
pub open spec fn frames_for(state: PlayerState) -> Seq<AnimationFrame> {
    match state {
        PlayerState::Idle => seq![
            AnimationFrame {
                source_rect: Rect { x: 0, y: 0, width: 32000, height: 32000 },
                duration: 60000,
            },
        ],
        PlayerState::Walking => Seq::new(4, |i: int| sheet_frame(i, 32000, 32000, 6000)),
        PlayerState::Running => Seq::new(4, |i: int| sheet_frame(i, 32000, 32000, 4200)),
        PlayerState::Jumping | PlayerState::Falling => seq![
            AnimationFrame {
                source_rect: Rect { x: 128000, y: 0, width: 32000, height: 32000 },
                duration: 30000,
            },
        ],
        PlayerState::Ducking => seq![
            AnimationFrame {
                source_rect: Rect { x: 160000, y: 0, width: 32000, height: 24000 },
                duration: 60000,
            },
        ],
        PlayerState::Dead => seq![
            AnimationFrame {
                source_rect: Rect { x: 192000, y: 0, width: 32000, height: 32000 },
                duration: 60000,
            },
        ],
        PlayerState::Climbing => Seq::empty(),
    }
}

/// `after` is the sprite `before` made to show the player: mirrored where
/// the player faces left, with the animation of the state at its first
/// frame. The animation of a jump or a fall is shown once, any other over
/// and over.
pub open spec fn shows_player(before: Sprite, facing_right: bool, state: PlayerState, after: Sprite) -> bool {
    &&& after.texture_name == before.texture_name
    &&& after.position == before.position
    &&& after.size == before.size
    &&& after.source_rect == before.source_rect
    &&& after.visible == before.visible
    &&& after.rotation == before.rotation
    &&& after.scale == before.scale
    &&& after.flip_vertical == before.flip_vertical
    &&& after.flip_horizontal == !facing_right
    &&& if state == PlayerState::Climbing {
        after.animation == before.animation
    } else {
        &&& after.animation is Some
        &&& after.animation->0.frames@ == frames_for(state)
        &&& after.animation->0.loops == (state != PlayerState::Jumping && state
            != PlayerState::Falling)
        &&& after.animation->0.current_frame == 0
        &&& after.animation->0.frame_time == 0
    }
}

/// The animation that shows the player in a state; `None` for a player
/// that climbs.
pub fn animation_for(state: PlayerState) -> (animation: Option<Animation>)
    ensures
        match animation {
            Some(a) => {
                &&& state != PlayerState::Climbing
                &&& a.frames@ == frames_for(state)
                &&& a.loops == (state != PlayerState::Jumping && state != PlayerState::Falling)
                &&& a.current_frame == 0
                &&& a.frame_time == 0
            },
            None => state == PlayerState::Climbing,
        },
{
    match state {
        PlayerState::Idle => Some(animations::idle(Rect::new(0, 0, 32000, 32000))),
        PlayerState::Walking => {
            let a = animations::walk(32000, 32000, 4);
            assert(a.frames@ =~= frames_for(state));
            Some(a)
        },
        PlayerState::Running => {
            let mut run_anim = animations::walk(32000, 32000, 4);
            let mut i: usize = 0;
            while i < run_anim.frames.len()
                invariant
                    i <= run_anim.frames@.len(),
                    run_anim.frames@.len() == 4,
                    run_anim.loops,
                    run_anim.current_frame == 0,
                    run_anim.frame_time == 0,
                    forall|k: int|
                        0 <= k < 4 ==> run_anim.frames@[k] == sheet_frame(
                            k,
                            32000,
                            32000,
                            if k < i {
                                4200u32
                            } else {
                                6000u32
                            },
                        ),
                decreases run_anim.frames@.len() - i,
            {
                let frame = run_anim.frames[i];
                let faster: u64 = frame.duration as u64 * 7 / 10;
                run_anim.frames.set(
                    i,
                    AnimationFrame { source_rect: frame.source_rect, duration: faster as u32 },
                );
                i += 1;
            }
            assert(run_anim.frames@ =~= frames_for(state));
            Some(run_anim)
        },
        PlayerState::Jumping | PlayerState::Falling => Some(
            animations::jump(Rect::new(128000, 0, 32000, 32000)),
        ),
        PlayerState::Ducking => Some(animations::idle(Rect::new(160000, 0, 32000, 24000))),
        PlayerState::Dead => Some(animations::idle(Rect::new(192000, 0, 32000, 32000))),
        PlayerState::Climbing => None,
    }
}

/// Picks the animation of the player.
pub struct PlayerAnimationSystem;

impl PlayerAnimationSystem {
    pub fn new() -> Self {
        Self
    }

    /// Makes the sprite of the player show what the player does: see
    /// `shows_player`. Nothing changes where the id is unknown, the entity
    /// is inactive or it lacks the controller or the sprite.
    pub fn update(&self, player_id: ObjectId, object_manager: &mut GameObjectManager) -> (done:
        Result<()>)
        requires
            old(object_manager).wf(),
        ensures
            done is Ok,
            final(object_manager).wf(),
            final(object_manager)@.next_id == old(object_manager)@.next_id,
            player_shown(
                old(object_manager)@.objects,
                player_id,
                final(object_manager)@.objects,
            ),
    {
        let ghost objects = object_manager@.objects;
        proof {
            object_manager.lemma_wf_view();
        }
        let player_obj = match object_manager.get_object_mut(player_id) {
            Some(obj) => obj,
            None => {
                return Ok(());
            },
        };
        if !player_obj.active {
            proof {
                assert(object_manager@.objects.dom() =~= objects.dom());
            }
            return Ok(());
        }
        let (facing_right, state) = match player_obj.get_component::<PlayerController>() {
            Some(controller) => (controller.facing_right, controller.state),
            None => {
                proof {
                    assert(object_manager@.objects.dom() =~= objects.dom());
                }
                return Ok(());
            },
        };
        let ghost parts = player_obj.components@;
        let sprite_comp = match player_obj.get_component_mut::<SpriteComponent>() {
            Some(s) => s,
            None => {
                proof {
                    assert(object_manager@.objects.dom() =~= objects.dom());
                }
                return Ok(());
            },
        };
        sprite_comp.sprite.flip_horizontal = !facing_right;
        match animation_for(state) {
            Some(animation) => {
                sprite_comp.sprite.set_animation(animation);
            },
            None => {},
        }
        proof {
            assert(object_manager@.objects.dom() =~= objects.dom());
            let after = object_manager@.objects[player_id];
            assert(after.components@.dom() =~= parts.dom());
        }
        Ok(())
    }
}

} // verus!
