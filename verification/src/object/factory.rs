//! Entities as most games need them.

use vstd::prelude::*;
use vstd::string::StringExecFns;
use crate::collision::{CollisionLayer, CollisionObject, CollisionType, CollisionView};
use crate::config::UNIT;
use crate::math::Vector2;
use crate::object::{
    Collectible, Component, ComponentKind, ComponentValue, GameObjectManager, ObjectId,
    PhysicsComponent, SpriteComponent, Transform,
};
use crate::physics::world::WorldView;
use crate::physics::{BodyType, PhysicsBody, PhysicsWorld};
use crate::sprite::Sprite;

verus! {

/// The transform of an entity that was just made at `position`.
pub open spec fn placed_at(position: Vector2) -> ComponentValue {
    ComponentValue::Transform(
        Transform { position, rotation: 0, scale: Vector2 { x: UNIT, y: UNIT } },
    )
}

/// The sprite component of an entity that was just made: a plain sprite of
/// the texture, visible, on layer zero.
pub open spec fn drawn_as(texture_name: String, size: Vector2) -> ComponentValue {
    ComponentValue::Sprite(
        SpriteComponent {
            sprite: Sprite::plain(texture_name, Vector2::origin(), size),
            visible: true,
            layer: 0,
        },
    )
}

/// `after` is `before` with one entity more, made under the next id, with
/// the given name, tag and components.
pub open spec fn grown(
    before: crate::object::manager::ManagerView,
    after: crate::object::manager::ManagerView,
    name: String,
    tag: Seq<char>,
    parts: Map<ComponentKind, ComponentValue>,
) -> bool {
    let id = before.next_id;
    &&& after.next_id == id + 1
    &&& after.objects.dom() == before.objects.dom().insert(id)
    &&& forall|other: ObjectId|
        other != id && before.objects.contains_key(other) ==> (#[trigger] after.objects[other])
            == before.objects[other]
    &&& after.objects[id].id == id
    &&& after.objects[id].active
    &&& after.objects[id].name == name
    &&& after.objects[id].tag@ == tag
    &&& after.objects[id].components@ == parts
}

/// Makes an entity that is a sprite at a place: a transform and a sprite
/// component.
pub fn create_static_sprite(
    manager: &mut GameObjectManager,
    name: String,
    position: Vector2,
    texture_name: String,
    size: Vector2,
) -> (id: ObjectId)
    requires
        old(manager).wf(),
        old(manager)@.next_id < u32::MAX,
    ensures
        final(manager).wf(),
        id == old(manager)@.next_id,
        grown(
            old(manager)@,
            final(manager)@,
            name,
            Seq::empty(),
            Map::<ComponentKind, ComponentValue>::empty().insert(
                ComponentKind::Transform,
                placed_at(position),
            ).insert(ComponentKind::Sprite, drawn_as(texture_name, size)),
        ),
{
    let id = manager.create_object(name);
    let ghost made = manager@.objects;
    match manager.get_object_mut(id) {
        Some(object) => {
            object.add_component(Transform::new(position));
            let sprite = Sprite::with_size(texture_name, Vector2::zero(), size);
            object.add_component(SpriteComponent::new(sprite));
        },
        None => {},
    }
    proof {
        assert(manager@.objects.dom() =~= made.dom());
    }
    id
}

/// Makes an entity that can be picked up: a static sprite with a
/// collectible of the given value, tagged `collectible`.
pub fn create_collectible(
    manager: &mut GameObjectManager,
    name: String,
    position: Vector2,
    texture_name: String,
    size: Vector2,
    value: i32,
) -> (id: ObjectId)
    requires
        old(manager).wf(),
        old(manager)@.next_id < u32::MAX,
    ensures
        final(manager).wf(),
        id == old(manager)@.next_id,
        grown(
            old(manager)@,
            final(manager)@,
            name,
            "collectible"@,
            Map::<ComponentKind, ComponentValue>::empty().insert(
                ComponentKind::Transform,
                placed_at(position),
            ).insert(ComponentKind::Sprite, drawn_as(texture_name, size)).insert(
                ComponentKind::Collectible,
                ComponentValue::Collectible(
                    Collectible { value, collected: false, auto_collect: true },
                ),
            ),
        ),
{
    let id = create_static_sprite(manager, name, position, texture_name, size);
    let ghost made = manager@.objects;
    match manager.get_object_mut(id) {
        Some(object) => {
            object.add_component(Collectible::new(value));
            object.tag = String::from_str("collectible");
        },
        None => {},
    }
    proof {
        assert(manager@.objects.dom() =~= made.dom());
    }
    id
}

/// The world after a body of the given place, size and type was added to
/// it: a fresh body on the world layer, and its solid collision object.
pub open spec fn with_fresh_body(world: WorldView, position: Vector2, size: Vector2, body_type: BodyType) -> WorldView {
    let id = world.collision.next_id;
    let body = PhysicsBody::fresh(id, position, size, body_type);
    WorldView {
        bodies: world.bodies.insert(id, body),
        collision: CollisionView {
            objects: world.collision.objects.insert(
                id,
                CollisionObject {
                    id,
                    rect: body.rect(),
                    layer: CollisionLayer::World,
                    collision_type: CollisionType::Solid,
                    active: true,
                },
            ),
            next_id: (id + 1) as u32,
            ..world.collision
        },
        ..world
    }
}

/// Makes an entity that a body moves: the body is added to the world, and
/// the entity gets a transform and a reference to the body.
pub fn create_physics_object(
    manager: &mut GameObjectManager,
    physics_world: &mut PhysicsWorld,
    name: String,
    position: Vector2,
    size: Vector2,
    body_type: BodyType,
    collision_layer: CollisionLayer,
) -> (id: ObjectId)
    requires
        old(manager).wf(),
        old(manager)@.next_id < u32::MAX,
        old(physics_world).wf(),
        old(physics_world)@.collision.next_id < u32::MAX,
    ensures
        final(manager).wf(),
        final(physics_world).wf(),
        id == old(manager)@.next_id,
        final(physics_world)@ == with_fresh_body(old(physics_world)@, position, size, body_type),
        grown(
            old(manager)@,
            final(manager)@,
            name,
            Seq::empty(),
            Map::<ComponentKind, ComponentValue>::empty().insert(
                ComponentKind::Transform,
                placed_at(position),
            ).insert(
                ComponentKind::Physics,
                ComponentValue::Physics(
                    PhysicsComponent {
                        body_id: old(physics_world)@.collision.next_id,
                        body_type,
                        collision_layer,
                    },
                ),
            ),
        ),
{
    let id = manager.create_object(name);
    let ghost made = manager@.objects;
    let physics_body = PhysicsBody::new(0, position, size, body_type);
    let body_id = physics_world.add_body(physics_body);
    match manager.get_object_mut(id) {
        Some(object) => {
            object.add_component(Transform::new(position));
            object.add_component(PhysicsComponent::new(body_id, body_type, collision_layer));
        },
        None => {},
    }
    proof {
        assert(manager@.objects.dom() =~= made.dom());
    }
    id
}

} // verus!
