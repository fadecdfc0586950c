//! The enemies of the game.

use vstd::prelude::*;
use vstd::string::StringExecFns;
use crate::badguy::{Badguy, BadguyAI, BadguyState, BadguyType};
use crate::collision::CollisionLayer;
use crate::config::UNIT;
use crate::math::Vector2;
use crate::object::factory::{create_physics_object, drawn_as, grown, placed_at, with_fresh_body};
use crate::object::{
    Component, ComponentKind, ComponentValue, GameObjectManager, Health, ObjectId,
    PhysicsComponent, SpriteComponent,
};
use crate::physics::{BodyType, PhysicsWorld};
use crate::sprite::Sprite;

verus! {

/// The components of an enemy that was just made: a transform, a
/// reference to its body on the enemy layer, a sprite 32 units wide and
/// high, what it is, a state machine that walks at `speed` and patrols
/// `patrol` units, and its health.
pub open spec fn enemy_parts(
    position: Vector2,
    texture_name: String,
    body_id: u32,
    body_type: BodyType,
    badguy_type: BadguyType,
    speed: i32,
    patrol: i32,
    health: i32,
) -> Map<ComponentKind, ComponentValue> {
    Map::<ComponentKind, ComponentValue>::empty().insert(
        ComponentKind::Transform,
        placed_at(position),
    ).insert(
        ComponentKind::Physics,
        ComponentValue::Physics(
            PhysicsComponent { body_id, body_type, collision_layer: CollisionLayer::Enemy },
        ),
    ).insert(
        ComponentKind::Sprite,
        drawn_as(texture_name, Vector2 { x: 32000, y: 32000 }),
    ).insert(ComponentKind::Badguy, ComponentValue::Badguy(Badguy::of(badguy_type))).insert(
        ComponentKind::BadguyAI,
        ComponentValue::BadguyAI(
            BadguyAI {
                state: BadguyState::Walking,
                move_speed: speed,
                detection_range: 150000,
                attack_range: 32000,
                direction: UNIT,
                state_timer: 0,
                patrol_distance: patrol,
                start_position: Vector2::origin(),
            },
        ),
    ).insert(
        ComponentKind::Health,
        ComponentValue::Health(
            Health { current: health, maximum: health, invulnerable: false, invulnerability_time: 0 },
        ),
    )
}

/// Makes an enemy of a kind: see `enemy_parts`.
fn create_badguy(
    object_manager: &mut GameObjectManager,
    physics_world: &mut PhysicsWorld,
    name: String,
    position: Vector2,
    texture_name: String,
    body_type: BodyType,
    badguy_type: BadguyType,
    speed: i32,
    patrol: i32,
    health: i32,
) -> (id: ObjectId)
    requires
        old(object_manager).wf(),
        old(object_manager)@.next_id < u32::MAX,
        old(physics_world).wf(),
        old(physics_world)@.collision.next_id < u32::MAX,
    ensures
        final(object_manager).wf(),
        final(physics_world).wf(),
        id == old(object_manager)@.next_id,
        final(physics_world)@ == with_fresh_body(
            old(physics_world)@,
            position,
            Vector2 { x: 32000, y: 32000 },
            body_type,
        ),
        grown(
            old(object_manager)@,
            final(object_manager)@,
            name,
            "badguy"@,
            enemy_parts(
                position,
                texture_name,
                old(physics_world)@.collision.next_id,
                body_type,
                badguy_type,
                speed,
                patrol,
                health,
            ),
        ),
{
    let id = create_physics_object(
        object_manager,
        physics_world,
        name,
        position,
        Vector2::new(32000, 32000),
        body_type,
        CollisionLayer::Enemy,
    );
    let ghost made = object_manager@.objects;
    match object_manager.get_object_mut(id) {
        Some(object) => {
            let sprite = Sprite::with_size(texture_name, Vector2::zero(), Vector2::new(32000, 32000));
            object.add_component(SpriteComponent::new(sprite));
            object.add_component(Badguy::new(badguy_type));
            let mut ai = BadguyAI::new(speed);
            ai.patrol_distance = patrol;
            object.add_component(ai);
            object.add_component(Health::new(health));
            object.tag = String::from_str("badguy");
        },
        None => {},
    }
    proof {
        assert(object_manager@.objects.dom() =~= made.dom());
    }
    id
}

/// Makes a goomba: a slow walker with one point of health, on a dynamic
/// body.
pub fn create_goomba(
    object_manager: &mut GameObjectManager,
    physics_world: &mut PhysicsWorld,
    position: Vector2,
    texture_name: String,
) -> (id: ObjectId)
    requires
        old(object_manager).wf(),
        old(object_manager)@.next_id < u32::MAX,
        old(physics_world).wf(),
        old(physics_world)@.collision.next_id < u32::MAX,
    ensures
        final(object_manager).wf(),
        final(physics_world).wf(),
        id == old(object_manager)@.next_id,
        final(physics_world)@ == with_fresh_body(
            old(physics_world)@,
            position,
            Vector2 { x: 32000, y: 32000 },
            BodyType::Dynamic,
        ),
        exists|name: String|
            name@ == "Goomba"@ && #[trigger] grown(
                old(object_manager)@,
                final(object_manager)@,
                name,
                "badguy"@,
                enemy_parts(
                    position,
                    texture_name,
                    old(physics_world)@.collision.next_id,
                    BodyType::Dynamic,
                    BadguyType::Goomba,
                    50000,
                    100000,
                    1,
                ),
            ),
{
    let name = String::from_str("Goomba");
    create_badguy(
        object_manager,
        physics_world,
        name,
        position,
        texture_name,
        BodyType::Dynamic,
        BadguyType::Goomba,
        50000,
        100000,
        1,
    )
}

/// Makes a spiky: a walker of middling speed with two points of health, on
/// a dynamic body.
pub fn create_spiky(
    object_manager: &mut GameObjectManager,
    physics_world: &mut PhysicsWorld,
    position: Vector2,
    texture_name: String,
) -> (id: ObjectId)
    requires
        old(object_manager).wf(),
        old(object_manager)@.next_id < u32::MAX,
        old(physics_world).wf(),
        old(physics_world)@.collision.next_id < u32::MAX,
    ensures
        final(object_manager).wf(),
        final(physics_world).wf(),
        id == old(object_manager)@.next_id,
        final(physics_world)@ == with_fresh_body(
            old(physics_world)@,
            position,
            Vector2 { x: 32000, y: 32000 },
            BodyType::Dynamic,
        ),
        exists|name: String|
            name@ == "Spiky"@ && #[trigger] grown(
                old(object_manager)@,
                final(object_manager)@,
                name,
                "badguy"@,
                enemy_parts(
                    position,
                    texture_name,
                    old(physics_world)@.collision.next_id,
                    BodyType::Dynamic,
                    BadguyType::Spiky,
                    75000,
                    100000,
                    2,
                ),
            ),
{
    let name = String::from_str("Spiky");
    create_badguy(
        object_manager,
        physics_world,
        name,
        position,
        texture_name,
        BodyType::Dynamic,
        BadguyType::Spiky,
        75000,
        100000,
        2,
    )
}

/// Makes a flying enemy: fast, with a wide patrol and one point of health,
/// on a kinematic body, which gravity does not pull.
pub fn create_flying(
    object_manager: &mut GameObjectManager,
    physics_world: &mut PhysicsWorld,
    position: Vector2,
    texture_name: String,
) -> (id: ObjectId)
    requires
        old(object_manager).wf(),
        old(object_manager)@.next_id < u32::MAX,
        old(physics_world).wf(),
        old(physics_world)@.collision.next_id < u32::MAX,
    ensures
        final(object_manager).wf(),
        final(physics_world).wf(),
        id == old(object_manager)@.next_id,
        final(physics_world)@ == with_fresh_body(
            old(physics_world)@,
            position,
            Vector2 { x: 32000, y: 32000 },
            BodyType::Kinematic,
        ),
        exists|name: String|
            name@ == "Flying"@ && #[trigger] grown(
                old(object_manager)@,
                final(object_manager)@,
                name,
                "badguy"@,
                enemy_parts(
                    position,
                    texture_name,
                    old(physics_world)@.collision.next_id,
                    BodyType::Kinematic,
                    BadguyType::Flying,
                    100000,
                    200000,
                    1,
                ),
            ),
{
    let name = String::from_str("Flying");
    create_badguy(
        object_manager,
        physics_world,
        name,
        position,
        texture_name,
        BodyType::Kinematic,
        BadguyType::Flying,
        100000,
        200000,
        1,
    )
}

} // verus!
