use rustux::collision::{
    CollisionLayer, CollisionObject, CollisionResult, CollisionSystem, CollisionType,
};
use rustux::math::{Direction, Rect, Vector2};

const LAYERS: [CollisionLayer; 6] = [
    CollisionLayer::World,
    CollisionLayer::Player,
    CollisionLayer::Enemy,
    CollisionLayer::Item,
    CollisionLayer::Trigger,
    CollisionLayer::Projectile,
];

#[test]
fn default_rules() {
    let system = CollisionSystem::new();
    let yes = [
        (CollisionLayer::World, CollisionLayer::Player),
        (CollisionLayer::World, CollisionLayer::Enemy),
        (CollisionLayer::World, CollisionLayer::Projectile),
        (CollisionLayer::Player, CollisionLayer::Enemy),
        (CollisionLayer::Player, CollisionLayer::Item),
        (CollisionLayer::Player, CollisionLayer::Trigger),
        (CollisionLayer::Player, CollisionLayer::Projectile),
        (CollisionLayer::Enemy, CollisionLayer::Trigger),
        (CollisionLayer::Enemy, CollisionLayer::Projectile),
        (CollisionLayer::Trigger, CollisionLayer::Projectile),
    ];
    for a in LAYERS {
        for b in LAYERS {
            let expected = yes.contains(&(a, b)) || yes.contains(&(b, a));
            assert_eq!(system.layers_interact(a, b), expected, "{:?} {:?}", a, b);
        }
    }
}

#[test]
fn rules_are_set_for_both_orders() {
    let mut system = CollisionSystem::new();
    for a in LAYERS {
        for b in LAYERS {
            for v in [true, false] {
                system.set_layer_interaction(a, b, v);
                assert_eq!(system.layers_interact(a, b), v);
                assert_eq!(system.layers_interact(b, a), v);
            }
        }
    }
}

#[test]
fn setting_a_rule_leaves_the_others() {
    let mut system = CollisionSystem::new();
    system.set_layer_interaction(CollisionLayer::Item, CollisionLayer::Enemy, true);
    assert!(system.layers_interact(CollisionLayer::Enemy, CollisionLayer::Item));
    assert!(system.layers_interact(CollisionLayer::World, CollisionLayer::Player));
    assert!(!system.layers_interact(CollisionLayer::World, CollisionLayer::Item));
}

#[test]
fn ids_start_at_one_and_grow() {
    let mut system = CollisionSystem::new();
    let r = Rect::new(0, 0, 1_000, 1_000);
    assert_eq!(system.add_object(r, CollisionLayer::World, CollisionType::Solid), 1);
    assert_eq!(system.add_object(r, CollisionLayer::World, CollisionType::Solid), 2);
    assert!(system.remove_object(1));
    assert!(!system.remove_object(1));
    assert_eq!(system.add_object(r, CollisionLayer::World, CollisionType::Solid), 3);
    assert_eq!(system.object_count(), 2);
    system.clear();
    assert_eq!(system.object_count(), 0);
    assert_eq!(system.add_object(r, CollisionLayer::World, CollisionType::Solid), 4);
}

#[test]
fn check_reports_direction_depth_and_contact() {
    let mut system = CollisionSystem::new();
    let ground = Rect::new(0, 100_000, 200_000, 50_000);
    let id = system.add_object(ground, CollisionLayer::World, CollisionType::Solid);
    // Midpoint above the ground's, offset taller than wide: the ground
    // lies below.
    let me = Rect::new(84_000, 80_000, 32_000, 32_000);
    let hits = system.check_collisions(&me, CollisionLayer::Player);
    assert_eq!(hits.len(), 1);
    assert_eq!(hits[0].object.id, id);
    assert_eq!(hits[0].direction, Direction::Down);
    assert_eq!(hits[0].penetration, 12_000);
    assert_eq!(hits[0].contact_point, Vector2::new(100_000, 106_000));
    assert_eq!(
        system.resolve_collision(&me, &hits[0]),
        Rect::new(84_000, 68_000, 32_000, 32_000)
    );
}

#[test]
fn a_corner_contact_counts_as_vertical() {
    let mut system = CollisionSystem::new();
    let id = system.add_object(
        Rect::new(5_000, 5_000, 10_000, 10_000),
        CollisionLayer::World,
        CollisionType::Solid,
    );
    // The midpoints are as far apart sideways as in height.
    let hits = system.check_collisions(&Rect::new(0, 0, 10_000, 10_000), CollisionLayer::Player);
    assert_eq!(hits.len(), 1);
    assert_eq!(hits[0].object.id, id);
    assert_eq!(hits[0].direction, Direction::Down);
    assert_eq!(hits[0].penetration, 5_000);
    assert_eq!(hits[0].contact_point, Vector2::new(7_500, 7_500));
}

#[test]
fn check_skips_layers_that_do_not_interact() {
    let mut system = CollisionSystem::new();
    system.add_object(Rect::new(0, 0, 50_000, 50_000), CollisionLayer::Item, CollisionType::Trigger);
    let me = Rect::new(10_000, 10_000, 10_000, 10_000);
    assert!(system.check_collisions(&me, CollisionLayer::World).is_empty());
    assert_eq!(system.check_collisions(&me, CollisionLayer::Player).len(), 1);
}

#[test]
fn check_reports_one_contact_per_object() {
    let mut system = CollisionSystem::new();
    let a = system.add_object(
        Rect::new(0, 0, 50_000, 50_000),
        CollisionLayer::World,
        CollisionType::Solid,
    );
    let b = system.add_object(
        Rect::new(20_000, 0, 50_000, 50_000),
        CollisionLayer::World,
        CollisionType::Platform,
    );
    let hits = system.check_collisions(&Rect::new(25_000, 10_000, 10_000, 10_000), CollisionLayer::Player);
    let ids: Vec<u32> = hits.iter().map(|h| h.object.id).collect();
    assert_eq!(ids, vec![a, b]);
}

#[test]
fn an_offset_as_wide_as_tall_counts_as_vertical() {
    let system = CollisionSystem::new();
    let fixed = Rect::new(0, 0, 10_000, 10_000);
    // What lies below and to the right of `fixed` has it above.
    let below_right = Rect::new(4_000, 4_000, 10_000, 10_000);
    assert_eq!(system.get_collision_direction(&below_right, &fixed), Direction::Up);
    let above_left = Rect::new(-4_000, -4_000, 10_000, 10_000);
    assert_eq!(system.get_collision_direction(&above_left, &fixed), Direction::Down);
    let right = Rect::new(5_000, 4_000, 10_000, 10_000);
    assert_eq!(system.get_collision_direction(&right, &fixed), Direction::Left);
    let left = Rect::new(-5_000, 4_000, 10_000, 10_000);
    assert_eq!(system.get_collision_direction(&left, &fixed), Direction::Right);
    assert_eq!(system.get_collision_direction(&fixed, &fixed), Direction::Up);
}

#[test]
fn direction_goes_by_midpoints_of_odd_extents() {
    let system = CollisionSystem::new();
    // Midpoints differ by half a grid step sideways and not at all in height.
    let fixed = Rect::new(0, 0, 2, 2);
    let moving = Rect::new(0, 0, 3, 2);
    assert_eq!(system.get_collision_direction(&moving, &fixed), Direction::Left);
    assert_eq!(system.get_collision_direction(&fixed, &moving), Direction::Right);
}

fn hit(rect: Rect, direction: Direction) -> CollisionResult {
    CollisionResult {
        object: CollisionObject::new(1, rect, CollisionLayer::World, CollisionType::Solid),
        direction,
        penetration: 0,
        contact_point: Vector2::new(0, 0),
    }
}

#[test]
fn resolve_moves_along_the_contact_only() {
    let system = CollisionSystem::new();
    let wall = Rect::new(100_000, 100_000, 50_000, 40_000);
    let me = Rect::new(90_000, 95_000, 32_000, 30_000);
    assert_eq!(
        system.resolve_collision(&me, &hit(wall, Direction::Left)),
        Rect::new(150_000, 95_000, 32_000, 30_000)
    );
    assert_eq!(
        system.resolve_collision(&me, &hit(wall, Direction::Right)),
        Rect::new(68_000, 95_000, 32_000, 30_000)
    );
    assert_eq!(
        system.resolve_collision(&me, &hit(wall, Direction::Up)),
        Rect::new(90_000, 140_000, 32_000, 30_000)
    );
    assert_eq!(
        system.resolve_collision(&me, &hit(wall, Direction::Down)),
        Rect::new(90_000, 70_000, 32_000, 30_000)
    );
}

#[test]
fn resolve_saturates() {
    let system = CollisionSystem::new();
    let wall = Rect::new(i32::MAX - 10, 0, 100, 100);
    let me = Rect::new(0, 0, 10, 10);
    assert_eq!(system.resolve_collision(&me, &hit(wall, Direction::Left)).x, i32::MAX);
}

#[test]
fn object_intersection_needs_an_active_object() {
    let mut object = CollisionObject::new(
        1,
        Rect::new(0, 0, 10_000, 10_000),
        CollisionLayer::World,
        CollisionType::Solid,
    );
    let other = Rect::new(5_000, 5_000, 10_000, 10_000);
    assert!(object.intersects(&other));
    assert_eq!(object.intersection(&other), Some(Rect::new(5_000, 5_000, 5_000, 5_000)));
    object.active = false;
    assert!(!object.intersects(&other));
    assert_eq!(object.intersection(&other), None);
}

#[test]
fn attributes_are_noted_of_stored_objects() {
    let mut system = CollisionSystem::new();
    let r = Rect::new(0, 0, 1_000, 1_000);
    let id = system.add_object(r, CollisionLayer::Item, CollisionType::Trigger);
    assert!(system.has_object(id));
    assert_eq!(system.get_object_data(id, "kind"), None);
    assert!(system.set_object_data(id, "kind".to_string(), "coin".to_string()));
    assert!(system.set_object_data(id, "worth".to_string(), "200".to_string()));
    assert_eq!(system.get_object_data(id, "kind"), Some(&"coin".to_string()));
    assert!(system.set_object_data(id, "kind".to_string(), "star".to_string()));
    assert_eq!(system.get_object_data(id, "kind"), Some(&"star".to_string()));
    assert_eq!(system.get_object_data(id, "worth"), Some(&"200".to_string()));
    assert_eq!(system.get_object_data(id, "none"), None);
    // Nothing is noted of an object that is not stored.
    assert!(!system.set_object_data(id + 1, "kind".to_string(), "coin".to_string()));
    assert_eq!(system.get_object_data(id + 1, "kind"), None);
    // Moving the object keeps what was noted; taking it out forgets it.
    system.update_object(id, Rect::new(5, 5, 1_000, 1_000));
    assert_eq!(system.get_object_data(id, "kind"), Some(&"star".to_string()));
    assert!(system.remove_object(id));
    assert!(!system.has_object(id));
    assert_eq!(system.get_object_data(id, "kind"), None);
    let other = system.add_object(r, CollisionLayer::Item, CollisionType::Trigger);
    assert!(system.set_object_data(other, "kind".to_string(), "coin".to_string()));
    system.clear();
    assert_eq!(system.get_object_data(other, "kind"), None);
}
