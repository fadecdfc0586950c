use rustux::badguy::{Badguy, BadguyAI, BadguyType};
use rustux::collision::CollisionLayer;
use rustux::math::{Rect, Vector2};
use rustux::object::{
    Collectible, ComponentValue, GameObject, GameObjectManager, Health, HealthSystem,
    PhysicsComponent, PhysicsSyncSystem, SpriteComponent, SpriteRenderSystem, Timer, TimerSystem,
    Transform,
};
use rustux::physics::{BodyType, PhysicsBody, PhysicsWorld};
use rustux::sprite::animations;
use rustux::sprite::Sprite;
use rustux::supertux::PlayerController;
use std::collections::HashMap;

fn sprite(size: Vector2) -> Sprite {
    Sprite::with_size("tux".to_string(), Vector2::new(0, 0), size)
}

#[test]
fn a_component_added_is_the_one_found() {
    let mut object = GameObject::new(1, "thing".to_string());
    assert!(object.get_component::<Health>().is_none());
    assert!(!object.has_component::<Health>());
    object.add_component(Health::new(3));
    assert!(object.has_component::<Health>());
    assert_eq!(object.get_component::<Health>(), Some(&Health::new(3)));
    assert!(object.get_component::<Timer>().is_none());
}

#[test]
fn a_second_component_of_a_kind_takes_the_place_of_the_first() {
    let mut object = GameObject::new(1, "thing".to_string());
    object.add_component(Health::new(3));
    object.add_component(Transform::new(Vector2::new(1, 2)));
    object.add_component(Health::new(5));
    assert_eq!(object.get_component::<Health>(), Some(&Health::new(5)));
    assert_eq!(object.get_component::<Transform>(), Some(&Transform::new(Vector2::new(1, 2))));
    let taken = object.remove_component::<Health>();
    assert!(matches!(taken, Some(ComponentValue::Health(h)) if h == Health::new(5)));
    assert!(object.get_component::<Health>().is_none());
    assert!(object.remove_component::<Health>().is_none());
    assert!(object.has_component::<Transform>());
}

#[test]
fn every_kind_has_its_own_place() {
    let mut object = GameObject::new(1, "thing".to_string());
    object.add_component(Transform::new(Vector2::new(1, 2)));
    object.add_component(SpriteComponent::new(sprite(Vector2::new(10_000, 10_000))));
    object.add_component(PhysicsComponent::new(4, BodyType::Dynamic, CollisionLayer::Enemy));
    object.add_component(Health::new(2));
    object.add_component(Collectible::new(50));
    object.add_component(Timer::new(100));
    object.add_component(BadguyAI::new(50_000));
    object.add_component(Badguy::new(BadguyType::Spiky));
    object.add_component(PlayerController::new());
    assert_eq!(object.get_component::<Transform>().unwrap().position, Vector2::new(1, 2));
    assert_eq!(object.get_component::<SpriteComponent>().unwrap().sprite.size, Vector2::new(10_000, 10_000));
    assert_eq!(object.get_component::<PhysicsComponent>().unwrap().body_id, 4);
    assert_eq!(object.get_component::<Health>().unwrap().maximum, 2);
    assert_eq!(object.get_component::<Collectible>().unwrap().value, 50);
    assert_eq!(object.get_component::<Timer>().unwrap().duration, 100);
    assert_eq!(object.get_component::<BadguyAI>().unwrap().move_speed, 50_000);
    assert_eq!(object.get_component::<Badguy>().unwrap().points, 200);
    assert_eq!(object.get_component::<PlayerController>().unwrap().lives, 3);
}

#[test]
fn components_change_in_place() {
    let mut object = GameObject::new(1, "thing".to_string());
    object.add_component(Health::new(3));
    object.get_component_mut::<Health>().unwrap().current = 1;
    assert_eq!(object.get_component::<Health>().unwrap().current, 1);
    assert!(object.get_component_mut::<Timer>().is_none());
}

#[test]
fn position_and_bounds_come_from_transform_and_sprite() {
    let mut object = GameObject::new(1, "thing".to_string()).with_tag("tagged".to_string());
    assert_eq!(object.tag, "tagged");
    assert_eq!(object.position(), Vector2::new(0, 0));
    object.set_position(Vector2::new(5, 5));
    assert_eq!(object.position(), Vector2::new(0, 0));
    assert_eq!(object.get_bounds(), None);
    object.add_component(Transform::new(Vector2::new(10_000, 20_000)).with_scale(Vector2::new(2_000, 500)));
    assert_eq!(object.get_bounds(), None);
    object.add_component(SpriteComponent::new(sprite(Vector2::new(32_000, 16_000))));
    assert_eq!(object.get_bounds(), Some(Rect::new(10_000, 20_000, 64_000, 8_000)));
    object.set_position(Vector2::new(-1_000, 7));
    assert_eq!(object.position(), Vector2::new(-1_000, 7));
}

#[test]
fn health_takes_damage_and_heals() {
    let mut health = Health::new(3);
    assert!(health.take_damage(2));
    assert_eq!(health.current, 1);
    assert!(health.is_alive());
    assert!(health.take_damage(5));
    assert_eq!(health.current, 0);
    assert!(health.is_dead());
    health.heal(2);
    assert_eq!(health.current, 2);
    health.heal(10);
    assert_eq!(health.current, 3);
    health.invulnerable = true;
    assert!(!health.take_damage(1));
    assert_eq!(health.current, 3);
}

#[test]
fn invulnerability_runs_out() {
    let mut health = Health::new(3);
    health.invulnerable = true;
    health.invulnerability_time = 1500;
    health.update(1000);
    assert!(health.invulnerable);
    assert_eq!(health.invulnerability_time, 500);
    health.update(500);
    assert!(!health.invulnerable);
    assert_eq!(health.invulnerability_time, 0);
    // Without a time set, invulnerability lasts.
    health.invulnerable = true;
    health.update(1000);
    assert!(health.invulnerable);
}

#[test]
fn collectible_gives_its_value_once() {
    let mut coin = Collectible::new(200);
    assert!(coin.auto_collect);
    assert_eq!(coin.collect(), 200);
    assert!(coin.collected);
    assert_eq!(coin.collect(), 0);
}

#[test]
fn timer_rings_when_the_span_is_over() {
    let mut once = Timer::new(1000);
    assert!(!once.update(999));
    assert_eq!(once.progress(), 999);
    assert!(once.update(1));
    assert!(!once.active);
    assert_eq!(once.progress(), 1000);
    assert!(!once.update(5000));
    assert_eq!(once.elapsed, 1000);
    once.reset();
    assert!(once.active);
    assert_eq!(once.elapsed, 0);

    let mut again = Timer::new(1000).repeating();
    assert!(again.update(1500));
    assert_eq!(again.elapsed, 0);
    assert!(again.active);
    assert!(!again.update(500));
    assert_eq!(again.progress(), 500);
    assert_eq!(Timer::new(0).progress(), 1000);
    let mut long = Timer::new(u32::MAX);
    long.elapsed = u32::MAX - 1;
    assert!(long.update(10));
}

#[test]
fn manager_gives_out_ids_in_order() {
    let mut manager = GameObjectManager::new();
    assert_eq!(manager.create_object("a".to_string()), 1);
    assert_eq!(manager.create_object("b".to_string()), 2);
    assert_eq!(manager.object_count(), 2);
    assert_eq!(manager.get_object(2).unwrap().name, "b");
    assert!(manager.get_object(2).unwrap().active);
    assert!(manager.get_object(3).is_none());
    assert_eq!(manager.remove_object(1).map(|o| o.name), Some("a".to_string()));
    assert!(manager.remove_object(1).is_none());
    assert_eq!(manager.create_object("c".to_string()), 3);
    let mut ids = manager.get_object_ids();
    ids.sort();
    assert_eq!(ids, vec![2, 3]);
    assert_eq!(manager.add_object(GameObject::new(40, "d".to_string())), 40);
    assert_eq!(manager.object_count(), 3);
    manager.clear();
    assert_eq!(manager.object_count(), 0);
    assert_eq!(manager.create_object("e".to_string()), 4);
}

#[test]
fn entities_change_in_place() {
    let mut manager = GameObjectManager::new();
    let id = manager.create_object("a".to_string());
    manager.get_object_mut(id).unwrap().add_component(Health::new(7));
    manager.get_object_mut(id).unwrap().tag = "seen".to_string();
    assert_eq!(manager.get_object(id).unwrap().get_component::<Health>(), Some(&Health::new(7)));
    assert_eq!(manager.get_object(id).unwrap().tag, "seen");
    assert!(manager.get_object_mut(id + 1).is_none());
}

#[test]
fn entities_are_found_by_tag_name_and_area() {
    let mut manager = GameObjectManager::new();
    let a = manager.create_object("coin".to_string());
    let b = manager.create_object("coin".to_string());
    let c = manager.create_object("tux".to_string());
    manager.get_object_mut(a).unwrap().tag = "collectible".to_string();
    manager.get_object_mut(c).unwrap().tag = "player".to_string();
    let mut coins = manager.find_objects_by_name("coin");
    coins.sort();
    assert_eq!(coins, vec![a, b]);
    assert_eq!(manager.find_objects_by_tag("player"), vec![c]);
    assert_eq!(manager.find_objects_by_tag(""), vec![b]);
    assert!(manager.find_objects_by_tag("none").is_empty());

    for (id, x) in [(a, 0), (b, 100_000)] {
        let object = manager.get_object_mut(id).unwrap();
        object.add_component(Transform::new(Vector2::new(x, 0)));
        object.add_component(SpriteComponent::new(sprite(Vector2::new(32_000, 32_000))));
    }
    manager.get_object_mut(c).unwrap().add_component(Transform::new(Vector2::new(0, 0)));
    assert_eq!(manager.get_objects_in_area(&Rect::new(10_000, 10_000, 10_000, 10_000)), vec![a]);
    let mut both = manager.get_objects_in_area(&Rect::new(0, 0, 200_000, 10_000));
    both.sort();
    assert_eq!(both, vec![a, b]);
}

#[test]
fn systems_skip_inactive_entities() {
    let mut objects: HashMap<u32, GameObject> = HashMap::new();
    let mut awake = GameObject::new(1, "a".to_string());
    awake.add_component(Timer::new(1000));
    let mut hurt = Health::new(3);
    hurt.invulnerable = true;
    hurt.invulnerability_time = 600;
    awake.add_component(hurt);
    let mut asleep = GameObject::new(2, "b".to_string());
    asleep.active = false;
    asleep.add_component(Timer::new(1000));
    asleep.add_component(hurt);
    objects.insert(1, awake);
    objects.insert(2, asleep);
    assert!(TimerSystem::new().update(&mut objects, 400).is_ok());
    assert!(HealthSystem::new().update(&mut objects, 400).is_ok());
    assert_eq!(objects[&1].get_component::<Timer>().unwrap().elapsed, 400);
    assert_eq!(objects[&2].get_component::<Timer>().unwrap().elapsed, 0);
    assert_eq!(objects[&1].get_component::<Health>().unwrap().invulnerability_time, 200);
    assert_eq!(objects[&2].get_component::<Health>().unwrap().invulnerability_time, 600);
}

#[test]
fn manager_update_runs_timers_health_and_animations() {
    let mut manager = GameObjectManager::new();
    let id = manager.create_object("a".to_string());
    {
        let object = manager.get_object_mut(id).unwrap();
        object.add_component(Timer::new(1000));
        let mut hurt = Health::new(3);
        hurt.invulnerable = true;
        hurt.invulnerability_time = 600;
        object.add_component(hurt);
        let mut shown = sprite(Vector2::new(32_000, 32_000));
        shown.set_animation(animations::walk(32_000, 32_000, 4));
        object.add_component(SpriteComponent::new(shown));
        // Animations run even for an inactive entity.
        object.active = false;
    }
    assert!(manager.update(6000).is_ok());
    let object = manager.get_object(id).unwrap();
    assert_eq!(object.get_component::<Timer>().unwrap().elapsed, 0);
    assert_eq!(object.get_component::<Health>().unwrap().invulnerability_time, 600);
    let animation = object.get_component::<SpriteComponent>().unwrap().sprite.animation.clone().unwrap();
    assert_eq!(animation.current_frame, 1);
    assert_eq!(animation.frame_time, 0);
}

#[test]
fn entities_and_bodies_are_kept_in_the_same_place() {
    let mut world = PhysicsWorld::new();
    let body = world.add_body(PhysicsBody::new(
        0,
        Vector2::new(5_000, 6_000),
        Vector2::new(32_000, 32_000),
        BodyType::Dynamic,
    ));
    let mut manager = GameObjectManager::new();
    let id = manager.create_object("a".to_string());
    let loose = manager.create_object("b".to_string());
    {
        let object = manager.get_object_mut(id).unwrap();
        object.add_component(Transform::new(Vector2::new(0, 0)));
        object.add_component(PhysicsComponent::new(body, BodyType::Dynamic, CollisionLayer::World));
    }
    {
        let object = manager.get_object_mut(loose).unwrap();
        object.add_component(Transform::new(Vector2::new(1, 1)));
        object.add_component(PhysicsComponent::new(body + 5, BodyType::Dynamic, CollisionLayer::World));
    }
    assert!(manager.sync_from_physics(&world).is_ok());
    assert_eq!(manager.get_object(id).unwrap().position(), Vector2::new(5_000, 6_000));
    assert_eq!(manager.get_object(loose).unwrap().position(), Vector2::new(1, 1));

    manager.get_object_mut(id).unwrap().set_position(Vector2::new(70_000, 80_000));
    assert!(manager.sync_to_physics(&mut world).is_ok());
    assert_eq!(world.get_body(body).unwrap().position, Vector2::new(70_000, 80_000));
    assert_eq!(world.check_collisions(&Rect::new(71_000, 81_000, 10, 10), CollisionLayer::Player).len(), 1);

    let system = PhysicsSyncSystem::new();
    let mut objects: HashMap<u32, GameObject> = HashMap::new();
    let mut asleep = GameObject::new(9, "c".to_string());
    asleep.active = false;
    asleep.add_component(Transform::new(Vector2::new(0, 0)));
    asleep.add_component(PhysicsComponent::new(body, BodyType::Dynamic, CollisionLayer::World));
    objects.insert(9, asleep);
    assert!(system.sync_to_physics(&objects, &mut world).is_ok());
    assert_eq!(world.get_body(body).unwrap().position, Vector2::new(70_000, 80_000));
    assert!(system.sync_from_physics(&mut objects, &world).is_ok());
    assert_eq!(objects[&9].position(), Vector2::new(0, 0));
}

#[test]
fn sprites_are_drawn_by_rising_layer() {
    let mut objects: HashMap<u32, GameObject> = HashMap::new();
    for (id, layer, visible, active) in
        [(1, 5, true, true), (2, -1, true, true), (3, 0, false, true), (4, 3, true, false), (5, 5, true, true), (6, 2, true, true)]
    {
        let mut object = GameObject::new(id, "s".to_string());
        object.active = active;
        object.add_component(Transform::new(Vector2::new(0, 0)));
        let mut shown = SpriteComponent::new(sprite(Vector2::new(1, 1))).with_layer(layer);
        shown.visible = visible;
        object.add_component(shown);
        objects.insert(id, object);
    }
    let mut bare = GameObject::new(7, "s".to_string());
    bare.add_component(SpriteComponent::new(sprite(Vector2::new(1, 1))));
    objects.insert(7, bare);
    let list = SpriteRenderSystem::new().draw_list(&objects);
    let layers: Vec<i32> = list
        .iter()
        .map(|id| objects[id].get_component::<SpriteComponent>().unwrap().layer)
        .collect();
    assert_eq!(layers, vec![-1, 2, 5, 5]);
    let mut ids = list.clone();
    ids.sort();
    assert_eq!(ids, vec![1, 2, 5, 6]);
}
