use rustux::badguy::{Badguy, BadguyAI, BadguyState, BadguySystem, BadguyType, Drive};
use rustux::collision::CollisionLayer;
use rustux::math::Vector2;
use rustux::object::{GameObjectManager, Health, PhysicsComponent, SpriteComponent, Transform};
use rustux::physics::{BodyType, PhysicsBody, PhysicsWorld};
use rustux::sprite::Sprite;
use rustux::supertux::{
    PlayerAnimationSystem, PlayerController, PlayerInput, PlayerInputSystem, PlayerState,
};

fn at(x: i32) -> Vector2 {
    Vector2::new(x, 0)
}

const QUIET: PlayerInput =
    PlayerInput { move_left: false, move_right: false, run: false, jump: false, duck: false };

#[test]
fn kinds_of_enemy() {
    let goomba = Badguy::new(BadguyType::Goomba);
    assert_eq!((goomba.damage, goomba.points, goomba.can_be_stomped, goomba.can_be_kicked), (1, 100, true, false));
    let spiky = Badguy::new(BadguyType::Spiky);
    assert_eq!((spiky.damage, spiky.points, spiky.can_be_stomped, spiky.can_be_kicked), (1, 200, false, true));
    let jumpy = Badguy::new(BadguyType::Jumpy);
    assert_eq!((jumpy.damage, jumpy.points, jumpy.can_be_stomped, jumpy.can_be_kicked), (1, 150, true, false));
    let flying = Badguy::new(BadguyType::Flying);
    assert_eq!((flying.damage, flying.points, flying.can_be_stomped, flying.can_be_kicked), (1, 250, false, false));
}

#[test]
fn new_enemy_walks_right() {
    let ai = BadguyAI::new(50_000).with_patrol_distance(7).with_detection_range(9);
    assert_eq!(ai.state, BadguyState::Walking);
    assert_eq!(ai.direction, 1000);
    assert_eq!(ai.attack_range, 32_000);
    assert_eq!(ai.patrol_distance, 7);
    assert_eq!(ai.detection_range, 9);
    let ai = BadguyAI::new(50_000);
    assert_eq!(ai.detection_range, 150_000);
    assert_eq!(ai.patrol_distance, 100_000);
}

#[test]
fn chase_begins_under_150_and_ends_over_225() {
    let mut ai = BadguyAI::new(50_000);
    // The start is at the origin only until the enemy has been somewhere else.
    ai.start_position = at(1);
    assert_eq!(ai.advance(at(0), Some(at(150_000)), 1000), Drive::Horizontal(50_000));
    assert_eq!(ai.state, BadguyState::Walking);
    assert_eq!(ai.advance(at(0), Some(at(149_999)), 1000), Drive::Horizontal(50_000));
    assert_eq!(ai.state, BadguyState::Chasing);
    assert_eq!(ai.state_timer, 0);
    ai.advance(at(0), Some(at(225_000)), 1000);
    assert_eq!(ai.state, BadguyState::Chasing);
    ai.advance(at(0), Some(at(225_001)), 1000);
    assert_eq!(ai.state, BadguyState::Walking);
}

#[test]
fn distance_counts_along_both_axes() {
    let mut ai = BadguyAI::new(50_000);
    ai.start_position = at(1);
    // 90 and 120 units make 150 exactly: not nearer than 150.
    ai.advance(at(0), Some(Vector2::new(90_000, 120_000)), 1000);
    assert_eq!(ai.state, BadguyState::Walking);
    ai.advance(at(0), Some(Vector2::new(90_000, 119_999)), 1000);
    assert_eq!(ai.state, BadguyState::Chasing);
}

#[test]
fn chasing_enemy_faces_the_player_and_attacks_when_near() {
    let mut ai = BadguyAI::new(50_000);
    ai.state = BadguyState::Chasing;
    assert_eq!(ai.advance(at(100_000), Some(at(0)), 1000), Drive::Horizontal(-50_000));
    assert_eq!(ai.direction, -1000);
    assert_eq!(ai.advance(at(100_000), Some(at(200_000)), 1000), Drive::Horizontal(50_000));
    assert_eq!(ai.direction, 1000);
    assert_eq!(ai.advance(at(100_000), Some(at(131_999)), 1000), Drive::Keep);
    assert_eq!(ai.state, BadguyState::Attacking);
    assert_eq!(ai.advance(at(100_000), Some(at(131_999)), 30_000), Drive::Keep);
    assert_eq!(ai.state, BadguyState::Attacking);
    assert_eq!(ai.advance(at(100_000), Some(at(131_999)), 1), Drive::Horizontal(50_000));
    assert_eq!(ai.state, BadguyState::Chasing);
    // Without a player a chase goes on.
    ai.advance(at(100_000), None, 1000);
    assert_eq!(ai.state, BadguyState::Chasing);
}

#[test]
fn enemy_patrols_about_where_it_started() {
    let mut ai = BadguyAI::new(50_000);
    ai.advance(at(500_000), None, 1000);
    assert_eq!(ai.start_position, at(500_000));
    assert_eq!(ai.direction, 1000);
    ai.advance(at(600_000), None, 1000);
    assert_eq!(ai.direction, 1000);
    assert_eq!(ai.advance(at(600_001), None, 1000), Drive::Horizontal(-50_000));
    assert_eq!(ai.direction, -1000);
    assert_eq!(ai.state_timer, 3000);
}

#[test]
fn idle_and_stunned_enemies_wait() {
    let mut ai = BadguyAI::new(50_000);
    ai.state = BadguyState::Idle;
    assert_eq!(ai.advance(at(5), None, 60_000), Drive::Keep);
    assert_eq!(ai.state, BadguyState::Idle);
    assert_eq!(ai.advance(at(5), None, 1), Drive::Horizontal(50_000));
    assert_eq!(ai.state, BadguyState::Walking);
    ai.stun();
    assert_eq!(ai.state, BadguyState::Stunned);
    assert_eq!(ai.state_timer, 0);
    assert_eq!(ai.advance(at(5), None, 120_000), Drive::Horizontal(0));
    assert_eq!(ai.state, BadguyState::Stunned);
    assert_eq!(ai.advance(at(5), None, 1), Drive::Horizontal(50_000));
    assert_eq!(ai.state, BadguyState::Walking);
}

#[test]
fn dead_enemies_stay_dead() {
    let mut ai = BadguyAI::new(50_000);
    ai.state = BadguyState::Dead;
    assert_eq!(ai.advance(at(5), Some(at(6)), 500_000), Drive::Keep);
    assert_eq!(ai.state, BadguyState::Dead);
    assert_eq!(ai.state_timer, 500_000);
}

fn enemy(manager: &mut GameObjectManager, world: &mut PhysicsWorld, x: i32, kind: BadguyType) -> (u32, u32) {
    let mut body = PhysicsBody::new(0, Vector2::new(x, 0), Vector2::new(32_000, 32_000), BodyType::Dynamic);
    body.velocity = Vector2::new(7, 9_000);
    let body_id = world.add_body(body);
    let id = manager.create_object("enemy".to_string());
    let object = manager.get_object_mut(id).unwrap();
    object.add_component(Transform::new(Vector2::new(x, 0)));
    object.add_component(PhysicsComponent::new(body_id, BodyType::Dynamic, CollisionLayer::Enemy));
    object.add_component(Badguy::new(kind));
    object.add_component(BadguyAI::new(50_000));
    (id, body_id)
}

#[test]
fn system_updates_every_enemy() {
    let mut manager = GameObjectManager::new();
    let mut world = PhysicsWorld::new();
    let player = manager.create_object("tux".to_string());
    manager.get_object_mut(player).unwrap().add_component(Transform::new(Vector2::new(0, 0)));
    let (near, near_body) = enemy(&mut manager, &mut world, 100_000, BadguyType::Goomba);
    let (far, far_body) = enemy(&mut manager, &mut world, 900_000, BadguyType::Goomba);
    let (asleep, asleep_body) = enemy(&mut manager, &mut world, 50_000, BadguyType::Goomba);
    manager.get_object_mut(asleep).unwrap().active = false;
    let mut system = BadguySystem::new();
    system.set_player_id(player);
    assert!(system.update(&mut manager, &mut world, 1000).is_ok());
    let state = |manager: &GameObjectManager, id: u32| manager.get_object(id).unwrap().get_component::<BadguyAI>().unwrap().state;
    assert_eq!(state(&manager, near), BadguyState::Chasing);
    assert_eq!(state(&manager, far), BadguyState::Walking);
    assert_eq!(state(&manager, asleep), BadguyState::Walking);
    assert_eq!(manager.get_object(asleep).unwrap().get_component::<BadguyAI>().unwrap().state_timer, 0);
    // The horizontal velocity is set; the vertical stays.
    assert_eq!(world.get_body(near_body).unwrap().velocity, Vector2::new(50_000, 9_000));
    assert_eq!(world.get_body(far_body).unwrap().velocity, Vector2::new(50_000, 9_000));
    assert_eq!(world.get_body(asleep_body).unwrap().velocity, Vector2::new(7, 9_000));
    // Next the chasing enemy turns to the player.
    assert!(system.update(&mut manager, &mut world, 1000).is_ok());
    assert_eq!(world.get_body(near_body).unwrap().velocity, Vector2::new(-50_000, 9_000));
}

#[test]
fn stomp_stuns_and_touch_hurts() {
    let mut manager = GameObjectManager::new();
    let mut world = PhysicsWorld::new();
    let player = manager.create_object("tux".to_string());
    {
        let object = manager.get_object_mut(player).unwrap();
        object.add_component(Transform::new(Vector2::new(0, -16_001)));
        object.add_component(Health::new(3));
    }
    let (goomba, _) = enemy(&mut manager, &mut world, 0, BadguyType::Goomba);
    let (spiky, _) = enemy(&mut manager, &mut world, 0, BadguyType::Spiky);
    let system = BadguySystem::new();
    let state = |manager: &GameObjectManager, id: u32| manager.get_object(id).unwrap().get_component::<BadguyAI>().unwrap().state;
    let health = |manager: &GameObjectManager| manager.get_object(player).unwrap().get_component::<Health>().unwrap().current;

    assert!(system.handle_player_collision(goomba, player, &mut manager).is_ok());
    assert_eq!(state(&manager, goomba), BadguyState::Stunned);
    assert_eq!(health(&manager), 3);
    // A spiky cannot be stomped.
    assert!(system.handle_player_collision(spiky, player, &mut manager).is_ok());
    assert_eq!(state(&manager, spiky), BadguyState::Walking);
    assert_eq!(health(&manager), 2);
    // Sixteen units above is not more than sixteen.
    manager.get_object_mut(player).unwrap().set_position(Vector2::new(0, -16_000));
    manager.get_object_mut(goomba).unwrap().get_component_mut::<BadguyAI>().unwrap().state = BadguyState::Walking;
    assert!(system.handle_player_collision(goomba, player, &mut manager).is_ok());
    assert_eq!(state(&manager, goomba), BadguyState::Walking);
    assert_eq!(health(&manager), 1);
    // An unknown enemy changes nothing.
    assert!(system.handle_player_collision(999, player, &mut manager).is_ok());
    assert_eq!(health(&manager), 1);
}

#[test]
fn last_life() {
    let mut player = PlayerController::new();
    player.lives = 1;
    player.take_damage();
    assert_eq!(player.lives, 0);
    assert_eq!(player.state, PlayerState::Dead);
    assert!(player.invulnerable);
    assert_eq!(player.invulnerability_time, 120_000);
    assert!(!player.is_alive());
    player.take_damage();
    assert_eq!(player.lives, 0);
}

#[test]
fn damage_costs_a_life_and_grants_two_seconds() {
    let mut player = PlayerController::new();
    player.take_damage();
    assert_eq!(player.lives, 2);
    assert_eq!(player.state, PlayerState::Idle);
    player.take_damage();
    assert_eq!(player.lives, 2);
    player.age(119_999);
    assert!(player.invulnerable);
    player.age(1);
    assert!(!player.invulnerable);
    player.take_damage();
    assert_eq!(player.lives, 1);
}

#[test]
fn coins_score_and_give_lives() {
    let mut player = PlayerController::new();
    player.coins = 98;
    player.add_coin();
    assert_eq!((player.coins, player.score, player.lives), (99, 200, 3));
    player.add_coin();
    assert_eq!((player.coins, player.score, player.lives), (100, 400, 4));
    player.add_score(i32::MAX);
    assert_eq!(player.score, i32::MAX);
}

#[test]
fn controller_methods() {
    let mut player = PlayerController::new();
    player.start_moving_left();
    assert!(!player.facing_right);
    assert_eq!(player.state, PlayerState::Idle);
    player.jump();
    assert_eq!(player.state, PlayerState::Idle);
    player.on_ground = true;
    player.start_moving_right();
    assert!(player.facing_right);
    assert_eq!(player.state, PlayerState::Walking);
    player.stop_horizontal_movement();
    assert_eq!(player.state, PlayerState::Idle);
    player.start_ducking();
    assert_eq!(player.state, PlayerState::Ducking);
    player.stop_ducking();
    assert_eq!(player.state, PlayerState::Idle);
    player.jump();
    assert_eq!(player.state, PlayerState::Jumping);
    assert!(!player.can_jump);
}

fn tux(manager: &mut GameObjectManager, world: &mut PhysicsWorld) -> (u32, u32) {
    let body_id = world.add_body(PhysicsBody::new(
        0,
        Vector2::new(0, 0),
        Vector2::new(32_000, 32_000),
        BodyType::Dynamic,
    ));
    let id = manager.create_object("Tux".to_string());
    let object = manager.get_object_mut(id).unwrap();
    object.add_component(PhysicsComponent::new(body_id, BodyType::Dynamic, CollisionLayer::Player));
    object.add_component(PlayerController::new());
    object.add_component(SpriteComponent::new(Sprite::new("tux".to_string(), Vector2::new(0, 0))));
    (id, body_id)
}

fn controller(manager: &GameObjectManager, id: u32) -> PlayerController {
    *manager.get_object(id).unwrap().get_component::<PlayerController>().unwrap()
}

#[test]
fn player_walks_runs_and_ducks_on_the_ground() {
    let mut manager = GameObjectManager::new();
    let mut world = PhysicsWorld::new();
    let (id, body) = tux(&mut manager, &mut world);
    world.get_body_mut(body).unwrap().on_ground = true;
    world.get_body_mut(body).unwrap().velocity = Vector2::new(0, 5);
    let system = PlayerInputSystem::new();
    // The controller learns in this frame that the body is on the ground.
    assert!(system.update(id, &mut manager, &mut world, &QUIET, 1000).is_ok());
    assert!(controller(&manager, id).on_ground);
    assert_eq!(controller(&manager, id).state, PlayerState::Idle);

    let right = PlayerInput { move_right: true, ..QUIET };
    assert!(system.update(id, &mut manager, &mut world, &right, 1000).is_ok());
    assert_eq!(controller(&manager, id).state, PlayerState::Walking);
    assert_eq!(world.get_body(body).unwrap().velocity, Vector2::new(150_000, 5));

    let left_run = PlayerInput { move_left: true, run: true, ..QUIET };
    assert!(system.update(id, &mut manager, &mut world, &left_run, 1000).is_ok());
    assert_eq!(controller(&manager, id).state, PlayerState::Running);
    assert!(!controller(&manager, id).facing_right);
    assert_eq!(world.get_body(body).unwrap().velocity, Vector2::new(-250_000, 5));

    let duck = PlayerInput { move_right: true, duck: true, ..QUIET };
    assert!(system.update(id, &mut manager, &mut world, &duck, 1000).is_ok());
    assert_eq!(controller(&manager, id).state, PlayerState::Ducking);
    assert_eq!(world.get_body(body).unwrap().velocity, Vector2::new(0, 5));

    assert!(system.update(id, &mut manager, &mut world, &QUIET, 1000).is_ok());
    assert_eq!(controller(&manager, id).state, PlayerState::Idle);
    assert_eq!(world.get_body(body).unwrap().velocity, Vector2::new(0, 5));
}

#[test]
fn a_jump_needs_ground_under_the_feet() {
    let mut manager = GameObjectManager::new();
    let mut world = PhysicsWorld::new();
    let (id, body) = tux(&mut manager, &mut world);
    let system = PlayerInputSystem::new();
    let jump = PlayerInput { jump: true, ..QUIET };
    // In the air nothing happens.
    assert!(system.update(id, &mut manager, &mut world, &jump, 1000).is_ok());
    assert_eq!(world.get_body(body).unwrap().velocity, Vector2::new(0, 0));
    assert_eq!(controller(&manager, id).state, PlayerState::Falling);

    world.get_body_mut(body).unwrap().on_ground = true;
    assert!(system.update(id, &mut manager, &mut world, &QUIET, 1000).is_ok());
    assert!(system.update(id, &mut manager, &mut world, &jump, 1000).is_ok());
    assert_eq!(world.get_body(body).unwrap().velocity, Vector2::new(0, -400_000));

    // Once the body has left the ground the player is jumping, then falling.
    world.get_body_mut(body).unwrap().on_ground = false;
    assert!(system.update(id, &mut manager, &mut world, &jump, 1000).is_ok());
    assert_eq!(controller(&manager, id).state, PlayerState::Jumping);
    assert_eq!(world.get_body(body).unwrap().velocity, Vector2::new(0, -400_000));
    world.get_body_mut(body).unwrap().velocity = Vector2::new(0, 10);
    assert!(system.update(id, &mut manager, &mut world, &QUIET, 1000).is_ok());
    assert_eq!(controller(&manager, id).state, PlayerState::Falling);
}

#[test]
fn a_dead_player_hears_nothing() {
    let mut manager = GameObjectManager::new();
    let mut world = PhysicsWorld::new();
    let (id, body) = tux(&mut manager, &mut world);
    {
        let object = manager.get_object_mut(id).unwrap();
        let player = object.get_component_mut::<PlayerController>().unwrap();
        player.lives = 1;
        player.take_damage();
    }
    let system = PlayerInputSystem::new();
    let right = PlayerInput { move_right: true, ..QUIET };
    assert!(system.update(id, &mut manager, &mut world, &right, 1000).is_ok());
    assert_eq!(world.get_body(body).unwrap().velocity, Vector2::new(0, 0));
    let player = controller(&manager, id);
    assert_eq!(player.state, PlayerState::Dead);
    assert_eq!(player.invulnerability_time, 119_000);
    assert!(system.update(id + 7, &mut manager, &mut world, &right, 1000).is_ok());
}

#[test]
fn the_sprite_shows_what_the_player_does() {
    let mut manager = GameObjectManager::new();
    let mut world = PhysicsWorld::new();
    let (id, _) = tux(&mut manager, &mut world);
    let system = PlayerAnimationSystem::new();
    let frames = |manager: &GameObjectManager| {
        let sprite = &manager.get_object(id).unwrap().get_component::<SpriteComponent>().unwrap().sprite;
        let animation = sprite.animation.clone().unwrap();
        (sprite.flip_horizontal, animation.loops, animation.frames.len(), animation.frames[0].duration, animation.frames[0].source_rect.x)
    };
    let set = |manager: &mut GameObjectManager, state: PlayerState, facing_right: bool| {
        let player = manager.get_object_mut(id).unwrap().get_component_mut::<PlayerController>().unwrap();
        player.state = state;
        player.facing_right = facing_right;
    };
    assert!(system.update(id, &mut manager).is_ok());
    assert_eq!(frames(&manager), (false, true, 1, 60_000, 0));
    set(&mut manager, PlayerState::Walking, false);
    assert!(system.update(id, &mut manager).is_ok());
    assert_eq!(frames(&manager), (true, true, 4, 6_000, 0));
    set(&mut manager, PlayerState::Running, true);
    assert!(system.update(id, &mut manager).is_ok());
    assert_eq!(frames(&manager), (false, true, 4, 4_200, 0));
    set(&mut manager, PlayerState::Falling, true);
    assert!(system.update(id, &mut manager).is_ok());
    assert_eq!(frames(&manager), (false, false, 1, 30_000, 128_000));
    set(&mut manager, PlayerState::Climbing, false);
    assert!(system.update(id, &mut manager).is_ok());
    assert_eq!(frames(&manager), (true, false, 1, 30_000, 128_000));
    set(&mut manager, PlayerState::Ducking, false);
    assert!(system.update(id, &mut manager).is_ok());
    assert_eq!(frames(&manager), (true, true, 1, 60_000, 160_000));
    set(&mut manager, PlayerState::Dead, false);
    assert!(system.update(id, &mut manager).is_ok());
    assert_eq!(frames(&manager), (true, true, 1, 60_000, 192_000));
}
