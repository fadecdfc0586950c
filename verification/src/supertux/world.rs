//! The world of the game: the entities, the physics, the player and the
//! camera that follows it.

use vstd::prelude::*;
use vstd::string::StringExecFns;
use crate::collision::CollisionLayer;
use crate::math::{saturate, saturate_to_i32, Rect, Vector2};
use crate::object::factory::{grown, placed_at, with_fresh_body};
use crate::object::manager::{refreshed_all, synced_from, ManagerView};
use crate::object::{
    Component, ComponentKind, ComponentValue, GameObject, GameObjectManager, Health, ObjectId,
    PhysicsComponent, SpriteComponent, Transform,
};
use crate::physics::world::WorldView;
use crate::physics::{BodyType, PhysicsBody, PhysicsWorld};
use crate::sprite::Sprite;
use crate::supertux::{
    player_frame, player_shown, PlayerAnimationSystem, PlayerController, PlayerInput,
    PlayerInputSystem,
};
use crate::util::Result;

verus! {

/// Half the width of the screen, in units.
pub const HALF_SCREEN_WIDTH: i32 = 400000;

/// How far above the player the top of the screen lies, in units.
pub const CAMERA_RISE: i32 = 300000;

/// The width of the screen, in units.
pub const VIEW_WIDTH: i32 = 800000;

/// The height of the screen, in units.
pub const VIEW_HEIGHT: i32 = 600000;

/// One coordinate of the camera: the player less the offset, not below
/// zero, and then not above the extent of the world less the extent of the
/// screen.
pub open spec fn camera_along(player: int, offset: int, extent: int, screen: int) -> int {
    let wanted = if player - offset < 0 {
        0
    } else {
        player - offset
    };
    saturate(
        if wanted > extent - screen {
            extent - screen
        } else {
            wanted
        },
    )
}

/// Where the camera stands over a player at `player` in a world of the
/// given bounds.
pub open spec fn camera_over(player: Vector2, bounds: Rect) -> Vector2 {
    Vector2 {
        x: camera_along(
            player.x as int,
            HALF_SCREEN_WIDTH as int,
            bounds.width as int,
            VIEW_WIDTH as int,
        ) as i32,
        y: camera_along(
            player.y as int,
            CAMERA_RISE as int,
            bounds.height as int,
            VIEW_HEIGHT as int,
        ) as i32,
    }
}

/// Where the camera stands after it followed the player: over the player
/// where there is one, and where it was where there is none.
pub open spec fn camera_after(
    objects: Map<ObjectId, GameObject>,
    player_id: Option<ObjectId>,
    bounds: Rect,
    camera: Vector2,
) -> Vector2 {
    match player_id {
        Some(id) => if objects.contains_key(id) {
            camera_over(crate::badguy::place_of(objects[id]), bounds)
        } else {
            camera
        },
        None => camera,
    }
}

/// What a game world holds.
pub struct GameView {
    /// The entities.
    pub manager: ManagerView,
    /// The physics.
    pub world: WorldView,
    /// The entity that is the player.
    pub player_id: Option<ObjectId>,
    /// The top-left corner of what the screen shows.
    pub camera_position: Vector2,
    /// The extent of the level.
    pub world_bounds: Rect,
}

/// The steps of one frame, from the state a frame finds to the state it
/// leaves: the physics takes the ticks; the player hears the input and its
/// sprite is made to show what it does; the entities go where their bodies
/// are; timers, invulnerability and animations run; the camera follows the
/// player.
pub open spec fn frame_steps(
    before: GameView,
    input: PlayerInput,
    delta_time: u32,
    stepped: WorldView,
    played: Map<ObjectId, GameObject>,
    shown: Map<ObjectId, GameObject>,
    synced: Map<ObjectId, GameObject>,
    after: GameView,
) -> bool {
    &&& before.world.updated(delta_time as nat, stepped)
    &&& match before.player_id {
        Some(id) => {
            &&& player_frame(
                before.manager.objects,
                stepped,
                id,
                input,
                delta_time,
                played,
                after.world,
            )
            &&& player_shown(played, id, shown)
        },
        None => played == before.manager.objects && shown == played && after.world == stepped,
    }
    &&& synced_from(shown, after.world, synced)
    &&& refreshed_all(synced, delta_time, after.manager.objects)
    &&& after.manager.next_id == before.manager.next_id
    &&& after.player_id == before.player_id
    &&& after.world_bounds == before.world_bounds
    &&& after.camera_position == camera_after(
        after.manager.objects,
        before.player_id,
        before.world_bounds,
        before.camera_position,
    )
}

/// The components of the player as it is made: a transform, a sprite, a
/// reference to its body on the player layer, its controller at the start,
/// and one point of health.
pub open spec fn player_parts(position: Vector2, body_id: u32, sprite: Sprite) -> Map<
    ComponentKind,
    ComponentValue,
> {
    Map::<ComponentKind, ComponentValue>::empty().insert(
        ComponentKind::Transform,
        placed_at(position),
    ).insert(
        ComponentKind::Sprite,
        ComponentValue::Sprite(SpriteComponent { sprite, visible: true, layer: 0 }),
    ).insert(
        ComponentKind::Physics,
        ComponentValue::Physics(
            PhysicsComponent {
                body_id,
                body_type: BodyType::Dynamic,
                collision_layer: CollisionLayer::Player,
            },
        ),
    ).insert(
        ComponentKind::PlayerController,
        ComponentValue::PlayerController(PlayerController::initial()),
    ).insert(
        ComponentKind::Health,
        ComponentValue::Health(
            Health { current: 1, maximum: 1, invulnerable: false, invulnerability_time: 0 },
        ),
    )
}

/// The world of the game.
pub struct GameWorld {
    object_manager: GameObjectManager,
    physics_world: PhysicsWorld,
    player_id: Option<ObjectId>,
    player_input_system: PlayerInputSystem,
    player_animation_system: PlayerAnimationSystem,
    camera_position: Vector2,
    world_bounds: Rect,
}

impl View for GameWorld {
    type V = GameView;

    closed spec fn view(&self) -> GameView {
        GameView {
            manager: self.object_manager@,
            world: self.physics_world@,
            player_id: self.player_id,
            camera_position: self.camera_position,
            world_bounds: self.world_bounds,
        }
    }
}

impl GameWorld {
    /// The entities and the physics are well formed.
    pub closed spec fn wf(&self) -> bool {
        self.object_manager.wf() && self.physics_world.wf()
    }

    /// A world without entities or bodies, 2048 units wide and 768 high,
    /// with the camera at the origin.
    pub fn new() -> (world: Self)
        ensures
            world.wf(),
            world@.manager.objects == Map::<ObjectId, GameObject>::empty(),
            world@.manager.next_id == 1,
            world@.world.bodies == Map::<u32, PhysicsBody>::empty(),
            world@.world.collision.next_id == 1,
            world@.player_id is None,
            world@.camera_position == Vector2::origin(),
            world@.world_bounds == (Rect { x: 0, y: 0, width: 2048000, height: 768000 }),
    {
        Self {
            object_manager: GameObjectManager::new(),
            physics_world: PhysicsWorld::new(),
            player_id: None,
            player_input_system: PlayerInputSystem::new(),
            player_animation_system: PlayerAnimationSystem::new(),
            camera_position: Vector2::zero(),
            world_bounds: Rect::new(0, 0, 2048000, 768000),
        }
    }

    /// Whether ids are left for one more entity and one more body.
    pub fn has_free_ids(&self) -> (free: bool)
        ensures
            free == (self@.manager.next_id < u32::MAX && self@.world.collision.next_id < u32::MAX),
    {
        self.object_manager.has_free_id() && self.physics_world.has_free_id()
    }

    /// Makes the player at `position`: a dynamic body 32 units wide and
    /// high, and an entity named Tux and tagged `player` that holds the
    /// components of `player_parts`, its sprite showing the first 32 by 32
    /// units of the texture `tux`. That entity is the player from now on.
    pub fn create_player(&mut self, position: Vector2, texture_name: String) -> (id: ObjectId)
        requires
            old(self).wf(),
            old(self)@.manager.next_id < u32::MAX,
            old(self)@.world.collision.next_id < u32::MAX,
        ensures
            final(self).wf(),
            id == old(self)@.manager.next_id,
            final(self)@.player_id == Some(id),
            final(self)@.camera_position == old(self)@.camera_position,
            final(self)@.world_bounds == old(self)@.world_bounds,
            final(self)@.world == with_fresh_body(
                old(self)@.world,
                position,
                Vector2 { x: 32000, y: 32000 },
                BodyType::Dynamic,
            ),
            exists|name: String, sprite: Sprite|
                {
                    &&& name@ == "Tux"@
                    &&& sprite.texture_name@ == "tux"@
                    &&& sprite == (Sprite {
                        source_rect: Some(Rect { x: 0, y: 0, width: 32000, height: 32000 }),
                        ..Sprite::plain(
                            sprite.texture_name,
                            Vector2::origin(),
                            Vector2 { x: 32000, y: 32000 },
                        )
                    })
                    &&& #[trigger] grown(
                        old(self)@.manager,
                        final(self)@.manager,
                        name,
                        "player"@,
                        player_parts(position, old(self)@.world.collision.next_id, sprite),
                    )
                },
    {
        let player_body = PhysicsBody::new(0, position, Vector2::new(32000, 32000), BodyType::Dynamic);
        let body_id = self.physics_world.add_body(player_body);
        let name = String::from_str("Tux");
        let player_id = self.object_manager.create_object(name);
        let ghost made = self.object_manager@.objects;
        let mut sprite = Sprite::new(String::from_str("tux"), Vector2::zero());
        sprite.set_source_rect(Rect::new(0, 0, 32000, 32000));
        let ghost shown = sprite;
        match self.object_manager.get_object_mut(player_id) {
            Some(player_obj) => {
                player_obj.add_component(Transform::new(position));
                player_obj.add_component(SpriteComponent::new(sprite));
                player_obj.add_component(
                    PhysicsComponent::new(body_id, BodyType::Dynamic, CollisionLayer::Player),
                );
                player_obj.add_component(PlayerController::new());
                player_obj.add_component(Health::new(1));
                player_obj.tag = String::from_str("player");
            },
            None => {},
        }
        self.player_id = Some(player_id);
        proof {
            assert(self.object_manager@.objects.dom() =~= made.dom());
            assert(grown(
                old(self)@.manager,
                self@.manager,
                name,
                "player"@,
                player_parts(position, old(self)@.world.collision.next_id, shown),
            ));
        }
        player_id
    }

    /// Plays one frame: see `frame_steps`.
    pub fn update(&mut self, input: &PlayerInput, delta_time: u32) -> (done: Result<()>)
        requires
            old(self).wf(),
        ensures
            done is Ok,
            final(self).wf(),
            exists|
                stepped: WorldView,
                played: Map<ObjectId, GameObject>,
                shown: Map<ObjectId, GameObject>,
                synced: Map<ObjectId, GameObject>,
            | #[trigger]
                frame_steps(
                    old(self)@,
                    *input,
                    delta_time,
                    stepped,
                    played,
                    shown,
                    synced,
                    final(self)@,
                ),
    {
        self.physics_world.update(delta_time);
        let ghost stepped = self.physics_world@;
        if let Some(player_id) = self.player_id {
            let _ = self.player_input_system.update(
                player_id,
                &mut self.object_manager,
                &mut self.physics_world,
                input,
                delta_time,
            );
        }
        let ghost played = self.object_manager@.objects;
        if let Some(player_id) = self.player_id {
            let _ = self.player_animation_system.update(player_id, &mut self.object_manager);
        }
        let ghost shown = self.object_manager@.objects;
        let _ = self.object_manager.sync_from_physics(&self.physics_world);
        let ghost synced = self.object_manager@.objects;
        let _ = self.object_manager.update(delta_time);
        self.update_camera();
        proof {
            assert(frame_steps(
                old(self)@,
                *input,
                delta_time,
                stepped,
                played,
                shown,
                synced,
                self@,
            ));
        }
        Ok(())
    }

    /// Lets the camera follow the player: see `camera_after`.
    fn update_camera(&mut self)
        requires
            old(self).wf(),
        ensures
            final(self).wf(),
            final(self)@ == (GameView {
                camera_position: camera_after(
                    old(self)@.manager.objects,
                    old(self)@.player_id,
                    old(self)@.world_bounds,
                    old(self)@.camera_position,
                ),
                ..old(self)@
            }),
    {
        if let Some(player_id) = self.player_id {
            match self.object_manager.get_object(player_id) {
                Some(player_obj) => {
                    let player_pos = player_obj.position();
                    self.camera_position = Vector2 {
                        x: follow(
                            player_pos.x,
                            HALF_SCREEN_WIDTH,
                            self.world_bounds.width,
                            VIEW_WIDTH,
                        ),
                        y: follow(player_pos.y, CAMERA_RISE, self.world_bounds.height, VIEW_HEIGHT),
                    };
                },
                None => {},
            }
        }
    }

    /// The entity that is the player.
    pub fn get_player(&self) -> (player: Option<&GameObject>)
        ensures
            match player {
                Some(object) => self@.player_id is Some && self@.manager.objects.contains_key(
                    self@.player_id->0,
                ) && *object == self@.manager.objects[self@.player_id->0] && (self.wf()
                    ==> object.wf()),
                None => self@.player_id is None || !self@.manager.objects.contains_key(
                    self@.player_id->0,
                ),
            },
    {
        match self.player_id {
            Some(id) => self.object_manager.get_object(id),
            None => None,
        }
    }

    /// The id of the entity that is the player.
    pub fn get_player_id(&self) -> (id: Option<ObjectId>)
        ensures
            id == self@.player_id,
    {
        self.player_id
    }

    /// The entities.
    pub fn object_manager(&self) -> (manager: &GameObjectManager)
        ensures
            manager@ == self@.manager,
            self.wf() ==> manager.wf(),
    {
        &self.object_manager
    }

    /// The entities, to be changed in place. The world stays well formed
    /// as long as the manager does.
    pub fn object_manager_mut(&mut self) -> (manager: &mut GameObjectManager)
        requires
            old(self).wf(),
        ensures
            manager@ == old(self)@.manager,
            manager.wf(),
            final(self)@ == (GameView { manager: final(manager)@, ..old(self)@ }),
            final(manager).wf() ==> final(self).wf(),
    {
        &mut self.object_manager
    }

    /// The physics.
    pub fn physics_world(&self) -> (world: &PhysicsWorld)
        ensures
            world@ == self@.world,
            self.wf() ==> world.wf(),
    {
        &self.physics_world
    }

    /// The physics, to be changed in place. The world stays well formed as
    /// long as the physics does.
    pub fn physics_world_mut(&mut self) -> (world: &mut PhysicsWorld)
        requires
            old(self).wf(),
        ensures
            world@ == old(self)@.world,
            world.wf(),
            final(self)@ == (GameView { world: final(world)@, ..old(self)@ }),
            final(world).wf() ==> final(self).wf(),
    {
        &mut self.physics_world
    }

    /// Where the camera stands.
    pub fn camera_position(&self) -> (camera: Vector2)
        ensures
            camera == self@.camera_position,
    {
        self.camera_position
    }

    /// Sets the extent of the level.
    pub fn set_world_bounds(&mut self, bounds: Rect)
        ensures
            final(self)@ == (GameView { world_bounds: bounds, ..old(self)@ }),
            final(self).wf() == old(self).wf(),
    {
        self.world_bounds = bounds;
    }

    /// The extent of the level.
    pub fn world_bounds(&self) -> (bounds: Rect)
        ensures
            bounds == self@.world_bounds,
    {
        self.world_bounds
    }

    /// The controller of the player, where there is a player that has one.
    pub open spec fn pilot(view: GameView) -> Option<PlayerController> {
        match view.player_id {
            Some(id) => if view.manager.objects.contains_key(id) {
                view.manager.objects[id].component::<PlayerController>()
            } else {
                None
            },
            None => None,
        }
    }

    /// The controller of the player.
    fn player_controller(&self) -> (controller: Option<PlayerController>)
        requires
            self.wf(),
        ensures
            controller == Self::pilot(self@),
    {
        match self.get_player() {
            Some(player) => match player.get_component::<PlayerController>() {
                Some(c) => Some(*c),
                None => None,
            },
            None => None,
        }
    }

    /// Whether there is a player and it is not dead.
    pub fn is_player_alive(&self) -> (alive: bool)
        requires
            self.wf(),
        ensures
            alive == match Self::pilot(self@) {
                Some(c) => c.state != crate::supertux::PlayerState::Dead,
                None => false,
            },
    {
        match self.player_controller() {
            Some(c) => c.is_alive(),
            None => false,
        }
    }

    /// The score of the player, and zero where there is none.
    pub fn get_player_score(&self) -> (score: i32)
        requires
            self.wf(),
        ensures
            score == match Self::pilot(self@) {
                Some(c) => c.score,
                None => 0,
            },
    {
        match self.player_controller() {
            Some(c) => c.score,
            None => 0,
        }
    }

    /// The lives of the player, and zero where there is none.
    pub fn get_player_lives(&self) -> (lives: i32)
        requires
            self.wf(),
        ensures
            lives == match Self::pilot(self@) {
                Some(c) => c.lives,
                None => 0,
            },
    {
        match self.player_controller() {
            Some(c) => c.lives,
            None => 0,
        }
    }

    /// The coins of the player, and zero where there is none.
    pub fn get_player_coins(&self) -> (coins: i32)
        requires
            self.wf(),
        ensures
            coins == match Self::pilot(self@) {
                Some(c) => c.coins,
                None => 0,
            },
    {
        match self.player_controller() {
            Some(c) => c.coins,
            None => 0,
        }
    }
}

/// One coordinate of the camera: see `camera_along`.
fn follow(player: i32, offset: i32, extent: i32, screen: i32) -> (camera: i32)
    ensures
        camera == camera_along(player as int, offset as int, extent as int, screen as int),
{
    let raw: i64 = player as i64 - offset as i64;
    let wanted: i64 = if raw < 0 {
        0
    } else {
        raw
    };
    let limit: i64 = extent as i64 - screen as i64;
    let held: i64 = if wanted > limit {
        limit
    } else {
        wanted
    };
    saturate_to_i32(held as i128)
}

} // verus!
