use rustux::badguy::factory::{create_flying, create_goomba, create_spiky};
use rustux::badguy::{Badguy, BadguyAI, BadguyType};
use rustux::collision::{CollisionLayer, CollisionSystem, CollisionType};
use rustux::math::{Rect, Vector2};
use rustux::object::factory::{create_collectible, create_physics_object, create_static_sprite};
use rustux::object::{
    Collectible, GameObjectManager, Health, PhysicsComponent, SpriteComponent, Transform,
};
use rustux::physics::{BodyType, Mass, PhysicsWorld};
use rustux::supertux::{GameWorld, PlayerController, PlayerInput, PlayerState};

const QUIET: PlayerInput =
    PlayerInput { move_left: false, move_right: false, run: false, jump: false, duck: false };

#[test]
fn factories_make_sprites_and_collectibles() {
    let mut manager = GameObjectManager::new();
    let sign = create_static_sprite(
        &mut manager,
        "sign".to_string(),
        Vector2::new(1_000, 2_000),
        "sign_texture".to_string(),
        Vector2::new(16_000, 24_000),
    );
    let object = manager.get_object(sign).unwrap();
    assert_eq!(object.name, "sign");
    assert_eq!(object.tag, "");
    assert_eq!(object.get_component::<Transform>(), Some(&Transform::new(Vector2::new(1_000, 2_000))));
    let shown = object.get_component::<SpriteComponent>().unwrap();
    assert_eq!(shown.sprite.texture_name, "sign_texture");
    assert_eq!(shown.sprite.size, Vector2::new(16_000, 24_000));
    assert!(shown.visible);
    assert_eq!(shown.layer, 0);
    assert_eq!(object.get_bounds(), Some(Rect::new(1_000, 2_000, 16_000, 24_000)));

    let coin = create_collectible(
        &mut manager,
        "coin".to_string(),
        Vector2::new(0, 0),
        "coin_texture".to_string(),
        Vector2::new(16_000, 16_000),
        200,
    );
    assert_eq!(coin, sign + 1);
    let object = manager.get_object(coin).unwrap();
    assert_eq!(object.tag, "collectible");
    assert_eq!(object.get_component::<Collectible>(), Some(&Collectible::new(200)));
    assert!(object.has_component::<SpriteComponent>());
    assert_eq!(manager.find_objects_by_tag("collectible"), vec![coin]);
}

#[test]
fn factories_make_bodies_and_enemies() {
    let mut manager = GameObjectManager::new();
    let mut world = PhysicsWorld::new();
    let crate_id = create_physics_object(
        &mut manager,
        &mut world,
        "crate".to_string(),
        Vector2::new(5_000, 6_000),
        Vector2::new(10_000, 20_000),
        BodyType::Kinematic,
        CollisionLayer::Item,
    );
    let reference = *manager.get_object(crate_id).unwrap().get_component::<PhysicsComponent>().unwrap();
    assert_eq!(reference, PhysicsComponent::new(1, BodyType::Kinematic, CollisionLayer::Item));
    let body = *world.get_body(reference.body_id).unwrap();
    assert_eq!(body.position, Vector2::new(5_000, 6_000));
    assert_eq!(body.size, Vector2::new(10_000, 20_000));
    assert_eq!(body.body_type, BodyType::Kinematic);
    assert_eq!(body.mass, Mass::Infinite);
    assert_eq!(body.collision_layer, CollisionLayer::World);

    let goomba = create_goomba(&mut manager, &mut world, Vector2::new(0, 0), "goomba".to_string());
    let spiky = create_spiky(&mut manager, &mut world, Vector2::new(100_000, 0), "spiky".to_string());
    let flying = create_flying(&mut manager, &mut world, Vector2::new(200_000, 0), "flying".to_string());
    let mut found = manager.find_objects_by_tag("badguy");
    found.sort();
    assert_eq!(found, vec![goomba, spiky, flying]);
    for (id, name, kind, speed, patrol, health, body_type) in [
        (goomba, "Goomba", BadguyType::Goomba, 50_000, 100_000, 1, BodyType::Dynamic),
        (spiky, "Spiky", BadguyType::Spiky, 75_000, 100_000, 2, BodyType::Dynamic),
        (flying, "Flying", BadguyType::Flying, 100_000, 200_000, 1, BodyType::Kinematic),
    ] {
        let object = manager.get_object(id).unwrap();
        assert_eq!(object.name, name);
        assert_eq!(object.get_component::<Badguy>(), Some(&Badguy::new(kind)));
        assert_eq!(object.get_component::<BadguyAI>(), Some(&BadguyAI::new(speed).with_patrol_distance(patrol)));
        assert_eq!(object.get_component::<Health>(), Some(&Health::new(health)));
        let reference = object.get_component::<PhysicsComponent>().unwrap();
        assert_eq!(reference.collision_layer, CollisionLayer::Enemy);
        assert_eq!(reference.body_type, body_type);
        let body = world.get_body(reference.body_id).unwrap();
        assert_eq!(body.size, Vector2::new(32_000, 32_000));
        assert_eq!(body.body_type, body_type);
        assert_eq!(object.get_component::<SpriteComponent>().unwrap().sprite.texture_name, name.to_lowercase());
    }
    assert_eq!(world.body_count(), 4);
}

#[test]
fn a_new_game_world() {
    let game = GameWorld::new();
    assert_eq!(game.get_player_id(), None);
    assert!(game.get_player().is_none());
    assert!(!game.is_player_alive());
    assert_eq!(game.get_player_score(), 0);
    assert_eq!(game.get_player_lives(), 0);
    assert_eq!(game.get_player_coins(), 0);
    assert_eq!(game.camera_position(), Vector2::new(0, 0));
    assert_eq!(game.world_bounds(), Rect::new(0, 0, 2_048_000, 768_000));
    assert!(game.has_free_ids());
    assert_eq!(game.object_manager().object_count(), 0);
    assert_eq!(game.physics_world().body_count(), 0);
}

#[test]
fn the_player_is_made_with_its_body() {
    let mut game = GameWorld::new();
    let id = game.create_player(Vector2::new(250_000, 368_000), "tux".to_string());
    assert_eq!(game.get_player_id(), Some(id));
    let player = game.get_player().unwrap();
    assert_eq!(player.name, "Tux");
    assert_eq!(player.tag, "player");
    assert_eq!(player.get_component::<PlayerController>(), Some(&PlayerController::new()));
    assert_eq!(player.get_component::<Health>(), Some(&Health::new(1)));
    assert_eq!(player.position(), Vector2::new(250_000, 368_000));
    let shown = player.get_component::<SpriteComponent>().unwrap();
    assert_eq!(shown.sprite.texture_name, "tux");
    assert_eq!(shown.sprite.source_rect, Some(Rect::new(0, 0, 32_000, 32_000)));
    let reference = *player.get_component::<PhysicsComponent>().unwrap();
    assert_eq!(reference.collision_layer, CollisionLayer::Player);
    let body = *game.physics_world().get_body(reference.body_id).unwrap();
    assert_eq!(body.body_type, BodyType::Dynamic);
    assert_eq!(body.size, Vector2::new(32_000, 32_000));
    assert!(game.is_player_alive());
    assert_eq!(game.get_player_lives(), 3);
}

#[test]
fn a_frame_moves_the_player_and_the_camera() {
    let mut game = GameWorld::new();
    let id = game.create_player(Vector2::new(500_000, 400_000), "tux".to_string());
    let body_id = game.get_player().unwrap().get_component::<PhysicsComponent>().unwrap().body_id;
    // One step of free fall, then the input is heard.
    let right = PlayerInput { move_right: true, ..QUIET };
    assert!(game.update(&right, 1000).is_ok());
    let body = *game.physics_world().get_body(body_id).unwrap();
    assert_eq!(body.position, Vector2::new(500_000, 400_272));
    assert_eq!(body.velocity, Vector2::new(150_000, 16_332));
    let player = game.get_player().unwrap();
    assert_eq!(player.position(), body.position);
    let controller = *player.get_component::<PlayerController>().unwrap();
    assert_eq!(controller.state, PlayerState::Falling);
    assert!(controller.facing_right);
    assert_eq!(game.camera_position(), Vector2::new(100_000, 100_272));
    // The sprite shows the fall at its first frame.
    let animation = player.get_component::<SpriteComponent>().unwrap().sprite.animation.clone().unwrap();
    assert!(!animation.loops);
    assert_eq!(animation.frames[0].source_rect, Rect::new(128_000, 0, 32_000, 32_000));
    assert_eq!(animation.frame_time, 1000);
    assert_eq!(game.get_player_id(), Some(id));
}

#[test]
fn the_camera_stays_within_the_level() {
    let mut game = GameWorld::new();
    game.create_player(Vector2::new(10_000, 20_000), "tux".to_string());
    assert!(game.update(&QUIET, 0).is_ok());
    assert_eq!(game.camera_position(), Vector2::new(0, 0));
    let body_id = game.get_player().unwrap().get_component::<PhysicsComponent>().unwrap().body_id;
    game.physics_world_mut().set_body_position(body_id, Vector2::new(5_000_000, 5_000_000));
    assert!(game.update(&QUIET, 0).is_ok());
    assert_eq!(game.camera_position(), Vector2::new(1_248_000, 168_000));
    game.set_world_bounds(Rect::new(0, 0, 10_000_000, 10_000_000));
    assert!(game.update(&QUIET, 0).is_ok());
    assert_eq!(game.camera_position(), Vector2::new(4_600_000, 4_700_000));
}

#[test]
fn a_world_without_player_still_runs() {
    let mut game = GameWorld::new();
    let id = game.object_manager_mut().create_object("thing".to_string());
    assert!(game.update(&QUIET, 5000).is_ok());
    assert!(game.object_manager().get_object(id).is_some());
    assert_eq!(game.camera_position(), Vector2::new(0, 0));
}

#[test]
fn rectangles_overlap_or_not() {
    let system = CollisionSystem::new();
    assert!(system.check_collision(&Rect::new(0, 0, 10, 10), &Rect::new(9, 9, 10, 10)));
    assert!(!system.check_collision(&Rect::new(0, 0, 10, 10), &Rect::new(10, 0, 10, 10)));
    assert_eq!(Transform::new(Vector2::new(0, 0)).with_rotation(90).rotation, 90);
    let mut other = CollisionSystem::default();
    assert_eq!(other.add_object(Rect::new(0, 0, 1, 1), CollisionLayer::World, CollisionType::Sensor), 1);
}
