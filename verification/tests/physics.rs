use rustux::collision::{
    CollisionLayer, CollisionObject, CollisionResult, CollisionType,
};
use rustux::math::{Direction, Rect, Vector2};
use rustux::physics::utils::{calculate_mass, force_for_acceleration, impulse_for_velocity};
use rustux::physics::world::{apply_collision, integrate, resolve_collisions};
use rustux::physics::{BodyType, Mass, PhysicsBody, PhysicsMaterial, PhysicsWorld};

fn dynamic(position: Vector2) -> PhysicsBody {
    let mut body = PhysicsBody::new(0, position, Vector2::new(32_000, 32_000), BodyType::Dynamic);
    body.collision_layer = CollisionLayer::Player;
    body
}

fn floating(position: Vector2, velocity: Vector2) -> PhysicsBody {
    let mut body = dynamic(position);
    body.use_gravity = false;
    body.linear_damping = 1000;
    body.velocity = velocity;
    body
}

fn hit_of(kind: CollisionType, rect: Rect, direction: Direction) -> CollisionResult {
    CollisionResult {
        object: CollisionObject::new(77, rect, CollisionLayer::World, kind),
        direction,
        penetration: 0,
        contact_point: Vector2::new(0, 0),
    }
}

#[test]
fn new_body_defaults() {
    let body = PhysicsBody::new(5, Vector2::new(1_000, 2_000), Vector2::new(32_000, 32_000), BodyType::Dynamic);
    assert_eq!(body.id, 5);
    assert_eq!(body.mass, Mass::Finite(1_024_000));
    assert!(body.use_gravity);
    assert!(body.active);
    assert!(!body.on_ground);
    assert_eq!(body.velocity, Vector2::new(0, 0));
    assert_eq!(body.max_velocity, Vector2::new(400_000, 400_000));
    assert_eq!(body.linear_damping, 980);
    assert_eq!(body.material, PhysicsMaterial { friction: 500, restitution: 0, density: 1000 });
    assert_eq!(body.collision_layer, CollisionLayer::World);
    let wall = PhysicsBody::new(1, Vector2::new(0, 0), Vector2::new(32_000, 32_000), BodyType::Static);
    assert_eq!(wall.mass, Mass::Infinite);
    assert!(!wall.use_gravity);
    let lift = PhysicsBody::new(1, Vector2::new(0, 0), Vector2::new(32_000, 32_000), BodyType::Kinematic);
    assert_eq!(lift.mass, Mass::Infinite);
    assert!(!lift.use_gravity);
    assert_eq!(body.get_rect(), Rect::new(1_000, 2_000, 32_000, 32_000));
    assert_eq!(body.get_center(), Vector2::new(17_000, 18_000));
}

#[test]
fn mass_is_area_times_density() {
    assert_eq!(calculate_mass(Vector2::new(32_000, 32_000), 1000), 1_024_000);
    assert_eq!(calculate_mass(Vector2::new(10_000, 20_000), 2500), 500_000);
    assert_eq!(calculate_mass(Vector2::new(500, 500), 1000), 250);
    assert_eq!(calculate_mass(Vector2::new(i32::MAX, i32::MAX), i32::MAX), i64::MAX);
}

#[test]
fn force_is_divided_by_mass() {
    let mut body = dynamic(Vector2::new(0, 0));
    body.mass = Mass::Finite(2_000);
    body.apply_force(Vector2::new(10_000, -3_000));
    assert_eq!(body.acceleration, Vector2::new(5_000, -1_500));
    body.apply_force(Vector2::new(10_000, 0));
    assert_eq!(body.acceleration, Vector2::new(10_000, -1_500));
    body.apply_impulse(Vector2::new(-4_000, 4_000));
    assert_eq!(body.velocity, Vector2::new(-2_000, 2_000));
}

#[test]
fn force_leaves_bodies_that_do_not_yield() {
    let mut wall = PhysicsBody::new(1, Vector2::new(0, 0), Vector2::new(32_000, 32_000), BodyType::Static);
    let before = wall;
    wall.apply_force(Vector2::new(10_000, 10_000));
    wall.apply_impulse(Vector2::new(10_000, 10_000));
    wall.set_position(Vector2::new(5, 5));
    wall.set_velocity(Vector2::new(5, 5));
    assert_eq!(wall, before);
    let mut lift = PhysicsBody::new(1, Vector2::new(0, 0), Vector2::new(32_000, 32_000), BodyType::Kinematic);
    lift.apply_force(Vector2::new(10_000, 10_000));
    lift.apply_impulse(Vector2::new(10_000, 10_000));
    assert_eq!(lift.acceleration, Vector2::new(0, 0));
    assert_eq!(lift.velocity, Vector2::new(0, 0));
    lift.set_velocity(Vector2::new(7, 8));
    lift.set_position(Vector2::new(1, 2));
    assert_eq!(lift.velocity, Vector2::new(7, 8));
    assert_eq!(lift.position, Vector2::new(1, 2));
    let mut odd = dynamic(Vector2::new(0, 0));
    odd.mass = Mass::Finite(0);
    odd.apply_force(Vector2::new(10_000, 10_000));
    assert_eq!(odd.acceleration, Vector2::new(0, 0));
    odd.mass = Mass::Infinite;
    odd.apply_impulse(Vector2::new(10_000, 10_000));
    assert_eq!(odd.velocity, Vector2::new(0, 0));
}

#[test]
fn formulas_of_mechanics() {
    assert_eq!(
        impulse_for_velocity(Vector2::new(1_000, 0), Vector2::new(3_000, -1_000), 2_000),
        Vector2::new(4_000, -2_000)
    );
    assert_eq!(force_for_acceleration(Vector2::new(1_000_000, 500), 1_024_000), Vector2::new(1_024_000_000, 512_000));
    assert_eq!(force_for_acceleration(Vector2::new(3_000_000, 0), 1_024_000).x, i32::MAX);
}

#[test]
fn is_moving_above_a_tenth_of_a_unit() {
    let mut body = dynamic(Vector2::new(0, 0));
    assert!(!body.is_moving());
    body.velocity = Vector2::new(100, 0);
    assert!(!body.is_moving());
    body.velocity = Vector2::new(100, 1);
    assert!(body.is_moving());
}

#[test]
fn integration_under_gravity() {
    let mut body = dynamic(Vector2::new(0, 0));
    integrate(&mut body, Vector2::new(0, 1_000_000), 1000);
    // 1000 units/s² over a sixtieth of a second is 16.666 units/s; damped by 0.98.
    assert_eq!(body.velocity, Vector2::new(0, 16_332));
    assert_eq!(body.acceleration, Vector2::new(0, 0));
    let mut fast = dynamic(Vector2::new(0, 0));
    fast.velocity = Vector2::new(-900_000, 399_000);
    integrate(&mut fast, Vector2::new(0, 1_000_000), 1000);
    assert_eq!(fast.velocity, Vector2::new(-400_000, 400_000));
}

#[test]
fn integration_spends_the_acceleration() {
    let mut body = floating(Vector2::new(0, 0), Vector2::new(0, 0));
    body.acceleration = Vector2::new(60_000, -120_000);
    integrate(&mut body, Vector2::new(0, 1_000_000), 1000);
    assert_eq!(body.velocity, Vector2::new(1_000, -2_000));
    assert_eq!(body.acceleration, Vector2::new(0, 0));
    let mut lift = PhysicsBody::new(1, Vector2::new(0, 0), Vector2::new(32_000, 32_000), BodyType::Kinematic);
    lift.velocity = Vector2::new(5_000, 0);
    lift.acceleration = Vector2::new(9, 9);
    integrate(&mut lift, Vector2::new(0, 1_000_000), 1000);
    assert_eq!(lift.velocity, Vector2::new(5_000, 0));
    assert_eq!(lift.acceleration, Vector2::new(0, 0));
}

#[test]
fn solid_contact_stops_one_axis() {
    let rect = Rect::new(0, 60_000, 32_000, 32_000);
    let ground = Rect::new(-84_000, 50_000, 200_000, 20_000);
    let mut body = floating(Vector2::new(0, 60_000), Vector2::new(100_000, 50_000));
    apply_collision(&mut body, 1, &rect, &hit_of(CollisionType::Solid, ground, Direction::Down));
    assert_eq!(body.velocity, Vector2::new(100_000, 0));
    assert!(body.on_ground);
    assert_eq!(body.position, Vector2::new(0, 18_000));

    let mut body = floating(Vector2::new(0, 60_000), Vector2::new(100_000, 50_000));
    apply_collision(&mut body, 1, &rect, &hit_of(CollisionType::Solid, ground, Direction::Up));
    assert_eq!(body.velocity, Vector2::new(100_000, 0));
    assert!(!body.on_ground);
    assert_eq!(body.position, Vector2::new(0, 70_000));

    let mut body = floating(Vector2::new(0, 60_000), Vector2::new(100_000, 50_000));
    apply_collision(&mut body, 1, &rect, &hit_of(CollisionType::Solid, ground, Direction::Left));
    assert_eq!(body.velocity, Vector2::new(0, 50_000));
    assert!(!body.on_ground);
    assert_eq!(body.position, Vector2::new(116_000, 60_000));

    let mut body = floating(Vector2::new(0, 60_000), Vector2::new(100_000, 50_000));
    apply_collision(&mut body, 1, &rect, &hit_of(CollisionType::Solid, ground, Direction::Right));
    assert_eq!(body.velocity, Vector2::new(0, 50_000));
    assert_eq!(body.position, Vector2::new(-116_000, 60_000));
}

#[test]
fn platform_is_one_way() {
    let rect = Rect::new(0, 60_000, 32_000, 32_000);
    let platform = Rect::new(-84_000, 50_000, 200_000, 20_000);
    let rising = floating(Vector2::new(0, 60_000), Vector2::new(10_000, -1));
    let mut body = rising;
    apply_collision(&mut body, 1, &rect, &hit_of(CollisionType::Platform, platform, Direction::Down));
    assert_eq!(body, rising);

    let falling = floating(Vector2::new(0, 60_000), Vector2::new(10_000, 0));
    let mut body = falling;
    apply_collision(&mut body, 1, &rect, &hit_of(CollisionType::Platform, platform, Direction::Down));
    assert!(body.on_ground);
    assert_eq!(body.velocity, Vector2::new(10_000, 0));
    assert_eq!(body.position, Vector2::new(0, 18_000));

    let mut body = floating(Vector2::new(0, 60_000), Vector2::new(10_000, 70_000));
    apply_collision(&mut body, 1, &rect, &hit_of(CollisionType::Platform, platform, Direction::Down));
    assert!(body.on_ground);
    assert_eq!(body.velocity, Vector2::new(10_000, 0));

    for direction in [Direction::Up, Direction::Left, Direction::Right] {
        let mut body = falling;
        apply_collision(&mut body, 1, &rect, &hit_of(CollisionType::Platform, platform, direction));
        assert_eq!(body, falling);
    }
}

#[test]
fn triggers_and_the_body_itself_change_nothing() {
    let rect = Rect::new(0, 60_000, 32_000, 32_000);
    let area = Rect::new(-84_000, 50_000, 200_000, 20_000);
    let start = floating(Vector2::new(0, 60_000), Vector2::new(10_000, 20_000));
    for kind in [CollisionType::Trigger, CollisionType::Sensor] {
        let mut body = start;
        apply_collision(&mut body, 1, &rect, &hit_of(kind, area, Direction::Down));
        assert_eq!(body, start);
    }
    let mut body = start;
    apply_collision(&mut body, 77, &rect, &hit_of(CollisionType::Solid, area, Direction::Down));
    assert_eq!(body, start);
}

#[test]
fn contacts_are_answered_in_turn() {
    let rect = Rect::new(0, 60_000, 32_000, 32_000);
    let ground = Rect::new(-84_000, 50_000, 200_000, 20_000);
    let wall = Rect::new(20_000, 0, 50_000, 200_000);
    let mut body = floating(Vector2::new(0, 60_000), Vector2::new(100_000, 50_000));
    let hits = vec![
        hit_of(CollisionType::Solid, ground, Direction::Down),
        hit_of(CollisionType::Solid, wall, Direction::Right),
    ];
    resolve_collisions(&mut body, 1, &rect, &hits);
    // The later contact decides the position; both stopped their axis.
    assert_eq!(body.position, Vector2::new(-12_000, 60_000));
    assert_eq!(body.velocity, Vector2::new(0, 0));
    assert!(body.on_ground);
}

#[test]
fn world_starts_empty_under_gravity() {
    let world = PhysicsWorld::new();
    assert_eq!(world.body_count(), 0);
    assert_eq!(world.get_gravity(), Vector2::new(0, 1_000_000));
    assert!(!world.is_paused());
    assert!(world.get_body_ids().is_empty());
    assert!(world.has_free_id());
}

#[test]
fn bodies_come_and_go() {
    let mut world = PhysicsWorld::new();
    let a = world.add_body(dynamic(Vector2::new(0, 0)));
    let b = world.add_body(dynamic(Vector2::new(100_000, 0)));
    assert_eq!((a, b), (1, 2));
    assert_eq!(world.get_body(a).map(|body| body.id), Some(1));
    assert_eq!(world.collision_system().object_count(), 2);
    let mut ids = world.get_body_ids();
    ids.sort();
    assert_eq!(ids, vec![1, 2]);
    assert_eq!(world.remove_body(a).map(|body| body.position), Some(Vector2::new(0, 0)));
    assert!(world.remove_body(a).is_none());
    assert!(world.get_body(a).is_none());
    assert_eq!(world.body_count(), 1);
    assert_eq!(world.collision_system().object_count(), 1);
    world.clear();
    assert_eq!(world.body_count(), 0);
    assert_eq!(world.collision_system().object_count(), 0);
}

#[test]
fn unknown_ids_are_ignored() {
    let mut world = PhysicsWorld::new();
    let a = world.add_body(dynamic(Vector2::new(0, 0)));
    world.set_body_velocity(99, Vector2::new(1, 1));
    world.set_body_position(99, Vector2::new(1, 1));
    world.apply_force_to_body(99, Vector2::new(1, 1));
    world.apply_impulse_to_body(99, Vector2::new(1, 1));
    assert_eq!(*world.get_body(a).unwrap(), {
        let mut body = dynamic(Vector2::new(0, 0));
        body.id = a;
        body
    });
}

#[test]
fn setters_reach_the_body_and_its_collision_object() {
    let mut world = PhysicsWorld::new();
    let a = world.add_body(dynamic(Vector2::new(0, 0)));
    world.set_body_velocity(a, Vector2::new(5_000, 6_000));
    world.set_body_position(a, Vector2::new(500_000, 0));
    world.apply_impulse_to_body(a, Vector2::new(1_024_000, 0));
    world.apply_force_to_body(a, Vector2::new(0, 2_048_000));
    let body = *world.get_body(a).unwrap();
    assert_eq!(body.velocity, Vector2::new(6_000, 6_000));
    assert_eq!(body.position, Vector2::new(500_000, 0));
    assert_eq!(body.acceleration, Vector2::new(0, 2_000));
    let hits = world.check_collisions(&Rect::new(510_000, 10_000, 1_000, 1_000), CollisionLayer::World);
    assert_eq!(hits.len(), 1);
    assert_eq!(hits[0].object.id, a);
    assert!(world.check_collisions(&Rect::new(10_000, 10_000, 1_000, 1_000), CollisionLayer::World).is_empty());
}

#[test]
fn query_area_lists_active_bodies_in_the_area() {
    let mut world = PhysicsWorld::new();
    let a = world.add_body(dynamic(Vector2::new(0, 0)));
    let b = world.add_body(dynamic(Vector2::new(100_000, 0)));
    let mut asleep = dynamic(Vector2::new(10_000, 0));
    asleep.active = false;
    let _c = world.add_body(asleep);
    assert_eq!(world.query_area(&Rect::new(-5_000, -5_000, 20_000, 20_000)), vec![a]);
    let mut both = world.query_area(&Rect::new(0, 0, 200_000, 10_000));
    both.sort();
    assert_eq!(both, vec![a, b]);
}

#[test]
fn fixed_timestep_accumulates() {
    // A body that falls freely: each step changes its velocity.
    let mut split = PhysicsWorld::new();
    let id = split.add_body(dynamic(Vector2::new(0, 0)));
    let mut whole = PhysicsWorld::new();
    whole.add_body(dynamic(Vector2::new(0, 0)));
    let mut counted = PhysicsWorld::new();
    counted.add_body(dynamic(Vector2::new(0, 0)));

    split.update(1200);
    split.update(1200);
    whole.update(2400);
    counted.step(1000);
    counted.step(1000);
    assert_eq!(split.get_body(id), whole.get_body(id));
    assert_eq!(split.get_body(id), counted.get_body(id));

    // 400 ticks were left waiting: 600 more make the third step.
    split.update(599);
    assert_eq!(split.get_body(id), counted.get_body(id));
    split.update(1);
    counted.step(1000);
    assert_eq!(split.get_body(id), counted.get_body(id));
}

#[test]
fn whole_steps_leave_nothing_waiting() {
    let mut world = PhysicsWorld::new();
    let id = world.add_body(dynamic(Vector2::new(0, 0)));
    let mut counted = PhysicsWorld::new();
    counted.add_body(dynamic(Vector2::new(0, 0)));
    world.update(5000);
    for _ in 0..5 {
        counted.step(1000);
    }
    assert_eq!(world.get_body(id), counted.get_body(id));
    world.update(999);
    assert_eq!(world.get_body(id), counted.get_body(id));
}

#[test]
fn paused_world_stands_still() {
    let mut world = PhysicsWorld::new();
    let id = world.add_body(dynamic(Vector2::new(0, 0)));
    world.set_paused(true);
    world.update(10_000);
    assert_eq!(world.get_body(id).unwrap().velocity, Vector2::new(0, 0));
    world.set_paused(false);
    // The ticks handed in while paused were not kept.
    world.update(999);
    assert_eq!(world.get_body(id).unwrap().velocity, Vector2::new(0, 0));
    world.update(1);
    assert_eq!(world.get_body(id).unwrap().velocity, Vector2::new(0, 16_332));
}

#[test]
fn free_fall_for_one_step() {
    let mut world = PhysicsWorld::new();
    let id = world.add_body(dynamic(Vector2::new(10_000, 20_000)));
    world.step(1000);
    let body = *world.get_body(id).unwrap();
    assert_eq!(body.velocity, Vector2::new(0, 16_332));
    // 16.332 units/s for a sixtieth of a second.
    assert_eq!(body.position, Vector2::new(10_000, 20_272));
    assert!(!body.on_ground);
    // The collision object went along.
    let hits = world.check_collisions(&Rect::new(10_000, 52_100, 1_000, 100), CollisionLayer::World);
    assert_eq!(hits.len(), 1);
}

#[test]
fn static_bodies_never_move() {
    let mut world = PhysicsWorld::new();
    let mut wall = PhysicsBody::new(0, Vector2::new(0, 0), Vector2::new(32_000, 32_000), BodyType::Static);
    wall.velocity = Vector2::new(50_000, 50_000);
    wall.use_gravity = true;
    let id = world.add_body(wall);
    let before = *world.get_body(id).unwrap();
    world.set_body_position(id, Vector2::new(9, 9));
    world.set_body_velocity(id, Vector2::new(9, 9));
    world.apply_force_to_body(id, Vector2::new(9_000_000, 9_000_000));
    world.apply_impulse_to_body(id, Vector2::new(9_000_000, 9_000_000));
    world.update(60_000);
    assert_eq!(*world.get_body(id).unwrap(), before);
}

#[test]
fn inactive_bodies_are_left_alone() {
    let mut world = PhysicsWorld::new();
    let mut asleep = dynamic(Vector2::new(0, 0));
    asleep.active = false;
    asleep.acceleration = Vector2::new(5, 5);
    let id = world.add_body(asleep);
    let before = *world.get_body(id).unwrap();
    world.update(10_000);
    assert_eq!(*world.get_body(id).unwrap(), before);
}

#[test]
fn body_lands_on_solid_ground() {
    let mut world = PhysicsWorld::new();
    world.collision_system_mut().add_object(
        Rect::new(0, 100_000, 200_000, 20_000),
        CollisionLayer::World,
        CollisionType::Solid,
    );
    // In one step the body goes 1.666 units right and 0.833 down, into the
    // ground below it.
    let id = world.add_body(floating(Vector2::new(84_000, 69_000), Vector2::new(100_000, 50_000)));
    world.step(1000);
    let body = *world.get_body(id).unwrap();
    assert_eq!(body.velocity, Vector2::new(100_000, 0));
    assert!(body.on_ground);
    assert_eq!(body.position, Vector2::new(85_666, 68_000));
    // Now clear of the ground, it is in the air again after the next step.
    world.step(1000);
    let body = *world.get_body(id).unwrap();
    assert!(!body.on_ground);
    assert_eq!(body.position, Vector2::new(87_332, 68_000));
}

#[test]
fn body_lands_on_a_static_body() {
    let mut world = PhysicsWorld::new();
    let floor = world.add_body(PhysicsBody::new(
        0,
        Vector2::new(0, 100_000),
        Vector2::new(200_000, 20_000),
        BodyType::Static,
    ));
    let id = world.add_body(floating(Vector2::new(84_000, 69_000), Vector2::new(100_000, 50_000)));
    world.update(1000);
    let body = *world.get_body(id).unwrap();
    assert_eq!(body.velocity, Vector2::new(100_000, 0));
    assert!(body.on_ground);
    assert_eq!(body.position.y, 68_000);
    assert_eq!(body.get_rect().bottom(), 100_000);
    assert_eq!(world.get_body(floor).unwrap().position, Vector2::new(0, 100_000));
}

#[test]
fn body_below_a_ceiling_is_pushed_down() {
    let mut world = PhysicsWorld::new();
    world.collision_system_mut().add_object(
        Rect::new(0, 0, 200_000, 20_000),
        CollisionLayer::World,
        CollisionType::Solid,
    );
    let id = world.add_body(floating(Vector2::new(84_000, 20_500), Vector2::new(100_000, -60_000)));
    world.step(1000);
    let body = *world.get_body(id).unwrap();
    assert_eq!(body.velocity, Vector2::new(100_000, 0));
    assert!(!body.on_ground);
    assert_eq!(body.position, Vector2::new(85_666, 20_000));
}

#[test]
fn rising_body_passes_a_platform() {
    let mut world = PhysicsWorld::new();
    world.collision_system_mut().add_object(
        Rect::new(0, 100_000, 200_000, 20_000),
        CollisionLayer::World,
        CollisionType::Platform,
    );
    // From below, rising: through.
    let id = world.add_body(floating(Vector2::new(84_000, 110_000), Vector2::new(0, -60_000)));
    world.step(1000);
    let body = *world.get_body(id).unwrap();
    assert_eq!(body.position, Vector2::new(84_000, 109_000));
    assert_eq!(body.velocity, Vector2::new(0, -60_000));
    assert!(!body.on_ground);
    // Rising still, with its midpoint above the platform's: through.
    let up = world.add_body(floating(Vector2::new(84_000, 70_000), Vector2::new(0, -60_000)));
    world.step(1000);
    let body = *world.get_body(up).unwrap();
    assert_eq!(body.position, Vector2::new(84_000, 69_000));
    assert!(!body.on_ground);

    // From above, coming down: taken up.
    let down = world.add_body(floating(Vector2::new(84_000, 68_500), Vector2::new(0, 60_000)));
    world.step(1000);
    let body = *world.get_body(down).unwrap();
    assert_eq!(body.position, Vector2::new(84_000, 68_000));
    assert_eq!(body.velocity, Vector2::new(0, 0));
    assert!(body.on_ground);
    // Coming down with its midpoint below the platform's: not taken up.
    let under = world.add_body(floating(Vector2::new(84_000, 105_000), Vector2::new(0, 60_000)));
    world.step(1000);
    let body = *world.get_body(under).unwrap();
    assert_eq!(body.position, Vector2::new(84_000, 106_000));
    assert_eq!(body.velocity, Vector2::new(0, 60_000));
    assert!(!body.on_ground);
}

#[test]
fn triggers_are_detected_and_do_not_block() {
    let mut world = PhysicsWorld::new();
    world.collision_system_mut().add_object(
        Rect::new(-84_000, 50_000, 200_000, 20_000),
        CollisionLayer::Trigger,
        CollisionType::Trigger,
    );
    let id = world.add_body(floating(Vector2::new(0, 60_000), Vector2::new(0, 60_000)));
    world.step(1000);
    let body = *world.get_body(id).unwrap();
    assert_eq!(body.position, Vector2::new(0, 61_000));
    assert_eq!(body.velocity, Vector2::new(0, 60_000));
    assert!(!body.on_ground);
    assert_eq!(world.check_collisions(&body.get_rect(), CollisionLayer::Player).len(), 1);
}

#[test]
fn bodies_change_in_place() {
    let mut world = PhysicsWorld::new();
    let id = world.add_body(dynamic(Vector2::new(0, 0)));
    world.get_body_mut(id).unwrap().velocity = Vector2::new(1, 2);
    assert_eq!(world.get_body(id).unwrap().velocity, Vector2::new(1, 2));
    assert!(world.get_body_mut(99).is_none());
}

#[test]
fn gravity_can_be_set() {
    let mut world = PhysicsWorld::new();
    world.set_gravity(Vector2::new(600_000, 0));
    assert_eq!(world.get_gravity(), Vector2::new(600_000, 0));
    let id = world.add_body(dynamic(Vector2::new(0, 0)));
    world.step(1000);
    assert_eq!(world.get_body(id).unwrap().velocity, Vector2::new(9_800, 0));
}
