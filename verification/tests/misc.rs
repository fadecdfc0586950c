use rustux::audio::utils::{apply_fade, volume_from_percentage, volume_to_percentage};
use rustux::audio::{scale_sample, AudioChannel, AudioClip, AudioConfig};
use rustux::collision::data::Attributes;
use rustux::collision::ray::{integer_root, ray_rect_intersection};
use rustux::collision::utils::{closest_point_on_rect, minimum_translation_vector, point_in_rect};
use rustux::collision::{CollisionLayer, CollisionSystem, CollisionType};
use rustux::control::utils::{action_name, binding_description, write_decimal};
use rustux::control::{GameAction, InputBinding};
use rustux::engine::StateId;
use rustux::gui::{GuiTheme, MenuItem};
use rustux::math::utils::{approx_eq, clamp, distance, distance_squared, lerp, lerp_vec2};
use rustux::math::{divide, floor_divide, saturate_to_i32, Direction, Rect, Vector2};
use rustux::physics::utils::{fall_time, jump_distance, jump_velocity_for_height};
use rustux::sprite::animations;
use rustux::sprite::{Animation, AnimationFrame, Sprite};
use rustux::trigger::Trigger;
use rustux::util::Error;

#[test]
fn arithmetic_helpers() {
    assert_eq!(saturate_to_i32(i32::MAX as i128 + 1), i32::MAX);
    assert_eq!(saturate_to_i32(i32::MIN as i128 - 1), i32::MIN);
    assert_eq!(saturate_to_i32(-5), -5);
    assert_eq!(divide(7, 2), 3);
    assert_eq!(divide(-7, 2), -3);
    assert_eq!(divide(7, -2), -3);
    assert_eq!(divide(-7, -2), 3);
    assert_eq!(floor_divide(7, 2), 3);
    assert_eq!(floor_divide(-7, 2), -4);
    assert_eq!(floor_divide(-8, 2), -4);
    assert_eq!(floor_divide(-1, 64_000), -1);
    assert_eq!(floor_divide(0, 64_000), 0);
    assert_eq!(clamp(5, 0, 3), 3);
    assert_eq!(clamp(-5, 0, 3), 0);
    assert_eq!(clamp(2, 0, 3), 2);
    assert_eq!(rustux::util::math::clamp(9u8, 1u8, 4u8), 4);
    assert_eq!(rustux::util::math::clamp(-9i64, -1i64, 4i64), -1);
    assert_eq!(lerp(0, 10_000, 250), 2_500);
    assert_eq!(lerp(10_000, 0, 250), 7_500);
    assert!(approx_eq(1_000, 1_004, 5));
    assert!(!approx_eq(1_000, 1_005, 5));
    assert_eq!(distance_squared(Vector2::new(0, 0), Vector2::new(3, 4)), 25);
    assert_eq!(distance(Vector2::new(0, 0), Vector2::new(3, 4)), 5);
    assert_eq!(distance(Vector2::new(0, 0), Vector2::new(1, 1)), 1);
    assert_eq!(distance(Vector2::new(i32::MIN, i32::MIN), Vector2::new(i32::MAX, i32::MAX)), 6_074_000_998);
    assert_eq!(lerp_vec2(Vector2::new(0, 10_000), Vector2::new(10_000, 0), 250), Vector2::new(2_500, 7_500));
    assert_eq!(Vector2::new(i32::MAX, 0).plus(Vector2::new(1, -1)), Vector2::new(i32::MAX, -1));
    assert_eq!(Vector2::new(i32::MIN, 0).minus(Vector2::new(1, -1)), Vector2::new(i32::MIN, 1));
}

#[test]
fn rect_helpers() {
    let r = Rect::new(10, 20, 30, 40);
    assert_eq!(r.top_left(), Vector2::new(10, 20));
    assert_eq!(r.top_right(), Vector2::new(40, 20));
    assert_eq!(r.bottom_left(), Vector2::new(10, 60));
    assert_eq!(r.bottom_right(), Vector2::new(40, 60));
    assert!(r.contains_point(Vector2::new(10, 60)));
    assert!(!r.contains_point(Vector2::new(9, 60)));
    assert!(r.contains_rect(&Rect::new(10, 20, 30, 40)));
    assert!(!r.contains_rect(&Rect::new(10, 20, 31, 40)));
    assert_eq!(r.expand(5), Rect::new(5, 15, 40, 50));
    assert_eq!(r.translate(Vector2::new(-10, 1)), Rect::new(0, 21, 30, 40));
    assert_eq!(Rect::from_pos_size(Vector2::new(1, 2), Vector2::new(3, 4)), Rect::new(1, 2, 3, 4));
    assert_eq!(Rect::default(), Rect::new(0, 0, 0, 0));
    assert_eq!(Rect::new(i32::MAX, 0, 10, 0).center().x, i32::MAX);
    assert!(point_in_rect(Vector2::new(40, 60), &r));
    assert_eq!(closest_point_on_rect(Vector2::new(0, 100), &r), Vector2::new(10, 60));
    assert_eq!(closest_point_on_rect(Vector2::new(15, 25), &r), Vector2::new(15, 25));
    assert_eq!(Direction::Right.to_vector(), Vector2::new(1000, 0));
}

#[test]
fn shortest_way_out_of_an_overlap() {
    let fixed = Rect::new(0, 0, 100, 100);
    assert_eq!(minimum_translation_vector(&Rect::new(90, 10, 50, 50), &fixed), Some(Vector2::new(10, 0)));
    assert_eq!(minimum_translation_vector(&Rect::new(-40, 10, 50, 50), &fixed), Some(Vector2::new(-10, 0)));
    assert_eq!(minimum_translation_vector(&Rect::new(10, 90, 50, 50), &fixed), Some(Vector2::new(0, 10)));
    assert_eq!(minimum_translation_vector(&Rect::new(10, -40, 50, 50), &fixed), Some(Vector2::new(0, -10)));
    assert_eq!(minimum_translation_vector(&Rect::new(90, 90, 50, 50), &fixed), Some(Vector2::new(0, 10)));
    assert_eq!(minimum_translation_vector(&Rect::new(100, 0, 50, 50), &fixed), None);
}

#[test]
fn whole_roots() {
    for (n, r) in [(0, 0), (1, 1), (3, 1), (4, 2), (24, 4), (25, 5), (26, 5), (1_000_000, 1000)] {
        assert_eq!(integer_root(n), r);
    }
    assert_eq!(integer_root(u64::MAX), 0xffff_ffff);
    assert_eq!(jump_velocity_for_height(100_000, 1_000_000), 447_213);
    assert_eq!(jump_velocity_for_height(0, 1_000_000), 0);
    // From 500 units under 1000 units/s² a fall takes a second.
    assert_eq!(fall_time(500_000, 1_000_000), 60_000);
    assert_eq!(fall_time(0, 1), 0);
    // At 100 units/s sideways and 400 up under 1000: 0.8 seconds, 80 units.
    assert_eq!(jump_distance(Vector2::new(100_000, 400_000), 1_000_000), 80_000);
}

#[test]
fn ray_meets_rectangle() {
    let rect = Rect::new(100, 100, 50, 50);
    // Along the diagonal into the corner.
    assert_eq!(ray_rect_intersection(Vector2::new(0, 0), Vector2::new(1, 1), &rect), Some(Vector2::new(100, 100)));
    // Pointing away.
    assert_eq!(ray_rect_intersection(Vector2::new(0, 0), Vector2::new(-1, -1), &rect), None);
    // Level, at a height inside the rectangle.
    assert_eq!(ray_rect_intersection(Vector2::new(0, 120), Vector2::new(10, 0), &rect), Some(Vector2::new(100, 120)));
    // Level, along the top edge: no contact.
    assert_eq!(ray_rect_intersection(Vector2::new(0, 100), Vector2::new(10, 0), &rect), None);
    // Straight down past the side.
    assert_eq!(ray_rect_intersection(Vector2::new(99, 0), Vector2::new(0, 5), &rect), None);
    // From inside, the ray meets the side it leaves by.
    assert_eq!(ray_rect_intersection(Vector2::new(120, 120), Vector2::new(2, 1), &rect), Some(Vector2::new(150, 135)));
    // Steep, rounding toward the start.
    assert_eq!(ray_rect_intersection(Vector2::new(0, 0), Vector2::new(3, 2), &rect), Some(Vector2::new(150, 100)));
    assert_eq!(ray_rect_intersection(Vector2::new(0, 0), Vector2::new(0, 0), &rect), None);
}

#[test]
fn raycast_returns_the_nearest_contact() {
    let mut system = CollisionSystem::new();
    let far = system.add_object(Rect::new(300_000, -10_000, 50_000, 50_000), CollisionLayer::World, CollisionType::Solid);
    let near = system.add_object(Rect::new(100_000, -10_000, 50_000, 50_000), CollisionLayer::World, CollisionType::Solid);
    let _item = system.add_object(Rect::new(50_000, -10_000, 10_000, 50_000), CollisionLayer::Item, CollisionType::Trigger);
    let start = Vector2::new(0, 5_000);
    // An enemy's ray passes items and stops at the world.
    let hit = system.raycast(start, Vector2::new(7, 0), 1_000_000, CollisionLayer::Enemy).unwrap();
    assert_eq!(hit.object.id, near);
    assert_eq!(hit.contact_point, Vector2::new(100_000, 5_000));
    assert_eq!(hit.penetration, 0);
    assert_eq!(hit.direction, Direction::Right);
    // Too short to reach anything.
    assert!(system.raycast(start, Vector2::new(7, 0), 100_000, CollisionLayer::Enemy).is_none());
    assert!(system.raycast(start, Vector2::new(7, 0), 100_001, CollisionLayer::Enemy).is_some());
    // The other way there is nothing.
    assert!(system.raycast(start, Vector2::new(-1, 0), 1_000_000, CollisionLayer::Enemy).is_none());
    // The world does not interact with itself.
    assert!(system.raycast(start, Vector2::new(7, 0), 1_000_000, CollisionLayer::World).is_none());
    // The player's ray meets the item first.
    let hit = system.raycast(start, Vector2::new(1, 0), 1_000_000, CollisionLayer::Player).unwrap();
    assert_eq!(hit.object.layer, CollisionLayer::Item);
    assert!(system.remove_object(near));
    let hit = system.raycast(start, Vector2::new(7, 0), 1_000_000, CollisionLayer::Enemy).unwrap();
    assert_eq!(hit.object.id, far);
    // A slanted ray.
    let hit = system.raycast(Vector2::new(0, -310_000), Vector2::new(3, 3), 1_000_000, CollisionLayer::Enemy).unwrap();
    assert_eq!(hit.object.id, far);
    assert_eq!(hit.contact_point, Vector2::new(300_000, -10_000));
}

#[test]
fn names_for_people() {
    assert_eq!(action_name(GameAction::MoveLeft), "Move Left");
    assert_eq!(action_name(GameAction::ToggleDebug), "Toggle Debug");
    assert_eq!(action_name(GameAction::MenuBack), "Menu Back");
    assert_eq!(write_decimal(0), "0");
    assert_eq!(write_decimal(4_294_967_295), "4294967295");
    assert_eq!(binding_description(&InputBinding::key_named("Space".to_string())), "Key: Space");
    assert_eq!(binding_description(&InputBinding::MouseButton(3)), "Mouse Button 3");
    assert_eq!(binding_description(&InputBinding::gamepad_button(1, 12)), "Gamepad 1 Button 12");
    assert_eq!(binding_description(&InputBinding::gamepad_axis(0, 2, true)), "Gamepad 0 Axis 2 +");
    assert_eq!(binding_description(&InputBinding::gamepad_axis(10, 255, false)), "Gamepad 10 Axis 255 -");
    assert_eq!(StateId::GameOver.as_str(), "game_over");
    assert_eq!(StateId::Menu.as_str(), "menu");
    assert_eq!(Error::ResourceNotFound("x".to_string()).label(), "Resource not found");
    assert_eq!(Error::Unknown("why".to_string()).detail(), "why");
    assert_eq!(Error::Physics("no ground".to_string()).to_text(), "Physics error: no ground");
    let trigger = Trigger::new(Rect::new(0, 0, 10, 10));
    assert!(trigger.active);
    assert!(!trigger.check_activation(&Rect::new(1, 1, 2, 2)));
    assert!(trigger.execute().is_ok());
}

#[test]
fn menu_items_and_themes() {
    let item = MenuItem::new("start".to_string(), "Start".to_string());
    assert!(item.enabled);
    assert_eq!(item.callback, None);
    let item = item.with_callback("go".to_string()).with_enabled(false);
    assert_eq!(item.callback, Some("go".to_string()));
    assert!(!item.enabled);
    assert_eq!(item.id, "start");
    let theme = GuiTheme::supertux_theme();
    assert_eq!(theme.button_normal, "supertux_button_normal");
    assert_eq!(theme.menu_background, "supertux_menu_bg");
    assert_eq!(theme.highlight_color, (255, 255, 0));
    assert_eq!(theme.font_size, 20);
    let plain = GuiTheme::default();
    assert_eq!(plain.button_pressed, "button_pressed");
    assert_eq!(plain.font_size, 16);
    assert_eq!(plain.clone().button_disabled, "button_disabled");
}

#[test]
fn audio_clip() {
    let clip = AudioClip::empty();
    assert!(clip.data().is_empty());
    assert_eq!(clip.sample_rate(), 44_100);
    assert_eq!(clip.channels(), 2);
    let clip = AudioClip::from_samples(vec![1, 2, 3], 22_050, 1);
    assert_eq!(clip.data(), &[1, 2, 3]);
    assert_eq!(clip.sample_rate(), 22_050);
    assert_eq!(clip.channels(), 1);
}

#[test]
fn animation_moves_through_its_frames() {
    let mut walk = animations::walk(32_000, 16_000, 3);
    assert_eq!(walk.frames.len(), 3);
    assert_eq!(walk.frames[2].source_rect, Rect::new(64_000, 0, 32_000, 16_000));
    walk.update(5_999);
    assert_eq!((walk.current_frame, walk.frame_time), (0, 5_999));
    walk.update(2);
    assert_eq!((walk.current_frame, walk.frame_time), (1, 1));
    walk.update(6_000);
    walk.update(6_000);
    assert_eq!((walk.current_frame, walk.frame_time), (0, 1));
    assert!(!walk.is_finished());
    walk.reset();
    assert_eq!((walk.current_frame, walk.frame_time), (0, 0));

    let frame = AnimationFrame { source_rect: Rect::new(0, 0, 1, 1), duration: 10 };
    let mut once = Animation::new(vec![frame, frame], false);
    assert!(!once.is_finished());
    once.update(10);
    assert!(once.is_finished());
    once.update(10);
    assert_eq!(once.current_frame, 1);
    assert_eq!(once.current_frame().map(|f| f.duration), Some(10));
    let mut none = Animation::new(vec![], true);
    none.update(100);
    assert!(none.current_frame().is_none());
    assert_eq!(animations::jump(Rect::new(0, 0, 1, 1)).frames[0].duration, 30_000);
    assert!(animations::idle(Rect::new(0, 0, 1, 1)).loops);
}

#[test]
fn sprite_shows_a_frame_or_a_fixed_part() {
    let mut sprite = Sprite::new("tux".to_string(), Vector2::new(5, 6));
    assert_eq!(sprite.size, Vector2::new(32_000, 32_000));
    assert_eq!(sprite.get_source_rect(), None);
    sprite.set_source_rect(Rect::new(1, 2, 3, 4));
    assert_eq!(sprite.get_source_rect(), Some(Rect::new(1, 2, 3, 4)));
    sprite.set_animation(animations::walk(32_000, 32_000, 2));
    sprite.update(6_000);
    assert_eq!(sprite.get_source_rect(), Some(Rect::new(32_000, 0, 32_000, 32_000)));
    sprite.scale = Vector2::new(1_500, 500);
    assert_eq!(sprite.get_dest_rect(), Rect::new(5, 6, 48_000, 16_000));
    sprite.set_source_rect(Rect::new(1, 2, 3, 4));
    assert!(sprite.animation.is_none());
}

#[test]
fn attribute_map() {
    let mut map = Attributes::new();
    assert_eq!(map.len(), 0);
    assert!(!map.contains_key("a"));
    map.insert("a".to_string(), "1".to_string());
    map.insert("b".to_string(), "2".to_string());
    map.insert("a".to_string(), "3".to_string());
    assert_eq!(map.len(), 2);
    assert_eq!(map.get("a"), Some(&"3".to_string()));
    assert_eq!(map.get("b"), Some(&"2".to_string()));
    assert_eq!(map.get(""), None);
    assert!(map.remove("a"));
    assert!(!map.remove("a"));
    assert_eq!(map.get("a"), None);
    assert!(map.contains_key("b"));
    assert_eq!(map.len(), 1);
}

#[test]
fn default_bindings() {
    let manager = rustux::control::InputManager::new();
    let config = manager.config();
    assert_eq!(config.bindings.len(), 17);
    assert_eq!(config.mouse_sensitivity, 1000);
    assert_eq!(config.gamepad_deadzone, 100);
    let key = |name: &str| InputBinding::key_named(name.to_string());
    assert_eq!(config.bindings[GameAction::MoveLeft.index()], vec![key("Left"), key("A")]);
    assert_eq!(config.bindings[GameAction::Jump.index()], vec![key("Space"), key("Up"), key("W")]);
    assert_eq!(config.bindings[GameAction::Run.index()], vec![key("Left Shift"), key("Right Shift")]);
    assert_eq!(config.bindings[GameAction::Pause.index()], vec![key("P"), key("Escape")]);
    assert_eq!(config.bindings[GameAction::Screenshot.index()], vec![key("F12")]);
    assert_eq!(config.bindings[GameAction::MenuBack.index()], vec![key("Escape")]);
}

#[test]
fn actions_follow_the_keys() {
    let mut manager = rustux::control::InputManager::new();
    let down = |key: &str| rustux::control::InputEvent::KeyDown { key: key.to_string(), repeat: false };
    let up = |key: &str| rustux::control::InputEvent::KeyUp { key: key.to_string() };
    assert!(!manager.is_action_pressed(GameAction::Jump));
    manager.process_event(&down("W"));
    assert!(manager.is_action_pressed(GameAction::Jump));
    assert!(manager.is_action_just_pressed(GameAction::Jump));
    assert!(manager.is_action_pressed(GameAction::MenuUp));
    assert!(!manager.is_action_pressed(GameAction::Duck));
    assert_eq!(manager.get_action_strength(GameAction::Jump), 1000);
    manager.update();
    assert!(manager.is_action_pressed(GameAction::Jump));
    assert!(!manager.is_action_just_pressed(GameAction::Jump));
    // A key that repeats did not go down again.
    manager.process_event(&rustux::control::InputEvent::KeyDown { key: "W".to_string(), repeat: true });
    assert!(!manager.is_action_just_pressed(GameAction::Jump));
    manager.process_event(&up("W"));
    assert!(!manager.is_action_pressed(GameAction::Jump));
    assert!(manager.is_action_just_released(GameAction::Jump));
    assert_eq!(manager.get_action_strength(GameAction::Jump), 0);
    manager.update();
    assert!(!manager.is_action_just_released(GameAction::Jump));

    manager.process_event(&down("Left"));
    assert_eq!(manager.get_movement_vector(), Vector2::new(-1000, 0));
    manager.process_event(&down("D"));
    assert_eq!(manager.get_movement_vector(), Vector2::new(0, 0));
    manager.process_event(&up("Left"));
    assert_eq!(manager.get_movement_vector(), Vector2::new(1000, 0));
}

#[test]
fn bindings_can_be_changed() {
    let mut manager = rustux::control::InputManager::new();
    let down = |key: &str| rustux::control::InputEvent::KeyDown { key: key.to_string(), repeat: false };
    manager.add_binding(GameAction::Jump, InputBinding::MouseButton(1));
    manager.add_binding(GameAction::Jump, InputBinding::MouseButton(9));
    manager.process_event(&rustux::control::InputEvent::MouseButtonDown(1));
    assert!(manager.is_action_pressed(GameAction::Jump));
    assert!(manager.is_action_just_pressed(GameAction::Jump));
    manager.process_event(&rustux::control::InputEvent::MouseButtonUp(1));
    assert!(manager.is_action_just_released(GameAction::Jump));
    // Buttons beyond the fifth do not count.
    manager.process_event(&rustux::control::InputEvent::MouseButtonDown(9));
    assert!(!manager.is_action_pressed(GameAction::Jump));

    manager.remove_binding(GameAction::Jump, &InputBinding::key_named("W".to_string()));
    assert_eq!(manager.config().bindings[GameAction::Jump.index()].len(), 4);
    manager.process_event(&down("W"));
    assert!(!manager.is_action_pressed(GameAction::Jump));
    assert!(manager.is_action_pressed(GameAction::MenuUp));
    manager.clear_bindings(GameAction::MenuUp);
    assert!(!manager.is_action_pressed(GameAction::MenuUp));
    assert!(manager.config().bindings[GameAction::MenuUp.index()].is_empty());
}

#[test]
fn mouse_and_gamepads() {
    let mut state = rustux::control::InputState::new();
    state.apply(&rustux::control::InputEvent::MouseMotion { x: 10, y: 20, xrel: 3, yrel: -4 }, 2000);
    assert_eq!(state.mouse_position(), Vector2::new(10_000, 20_000));
    assert_eq!(state.mouse_delta(), Vector2::new(6_000, -8_000));
    state.apply(&rustux::control::InputEvent::MouseWheel { x: 0, y: -1 }, 2000);
    assert_eq!(state.mouse_wheel_delta(), Vector2::new(0, -1_000));
    state.clear_frame_data();
    assert_eq!(state.mouse_delta(), Vector2::new(0, 0));
    assert_eq!(state.mouse_wheel_delta(), Vector2::new(0, 0));
    assert_eq!(state.mouse_position(), Vector2::new(10_000, 20_000));
    assert_eq!(state.gamepad_axis(0, 1), 0);
    assert!(!state.is_gamepad_button_pressed(0, 1));
    state.set_gamepad_axis(0, 1, -500);
    state.set_gamepad_button(2, 7, true);
    assert_eq!(state.gamepad_axis(0, 1), -500);
    assert!(state.is_gamepad_button_pressed(2, 7));
    assert!(!state.is_gamepad_button_pressed(7, 2));
    assert!(InputBinding::gamepad_axis(0, 1, true).same_as(&InputBinding::gamepad_axis(0, 1, true)));
    assert!(!InputBinding::gamepad_axis(0, 1, true).same_as(&InputBinding::gamepad_axis(0, 1, false)));
}

#[test]
fn gamepads_ask_for_actions() {
    let mut manager = rustux::control::InputManager::new();
    manager.add_binding(GameAction::MoveRight, InputBinding::gamepad_axis(0, 0, true));
    manager.add_binding(GameAction::MoveLeft, InputBinding::gamepad_axis(0, 0, false));
    manager.add_binding(GameAction::Jump, InputBinding::gamepad_button(0, 3));
    manager.set_gamepad_axis(0, 0, 100);
    // At the edge of the dead zone the axis does not count, but it has a strength.
    assert!(!manager.is_action_pressed(GameAction::MoveRight));
    assert_eq!(manager.get_action_strength(GameAction::MoveRight), 100);
    manager.set_gamepad_axis(0, 0, 101);
    assert!(manager.is_action_pressed(GameAction::MoveRight));
    assert!(!manager.is_action_pressed(GameAction::MoveLeft));
    assert_eq!(manager.get_action_strength(GameAction::MoveLeft), 0);
    manager.set_gamepad_axis(0, 0, -700);
    assert!(manager.is_action_pressed(GameAction::MoveLeft));
    assert_eq!(manager.get_action_strength(GameAction::MoveLeft), 700);
    assert!(!manager.is_action_just_pressed(GameAction::MoveLeft));
    manager.set_gamepad_button(0, 3, true);
    assert!(manager.is_action_pressed(GameAction::Jump));
    assert!(!manager.is_action_just_pressed(GameAction::Jump));
    manager.set_gamepad_button(0, 3, false);
    assert!(!manager.is_action_pressed(GameAction::Jump));
}

#[test]
fn screens_change_when_asked() {
    let mut tracker = rustux::engine::StateTracker::new();
    assert_eq!(tracker.current_state_id(), None);
    assert!(!tracker.has_state(StateId::Menu));
    let refused = tracker.set_state(StateId::GameOver);
    assert!(matches!(refused, Err(Error::GameLogic(m)) if m == "State GameOver not found"));
    tracker.add_state(StateId::Menu);
    tracker.add_state(StateId::Playing);
    assert!(tracker.has_state(StateId::Playing));
    assert!(tracker.begin_transition().is_none());
    assert!(tracker.set_state(StateId::Menu).is_ok());
    assert_eq!(tracker.current_state_id(), None);
    let change = tracker.begin_transition().unwrap();
    assert_eq!((change.leave, change.enter), (None, StateId::Menu));
    assert_eq!(tracker.current_state_id(), None);
    tracker.finish_transition(change);
    assert_eq!(tracker.current_state_id(), Some(StateId::Menu));
    assert!(tracker.begin_transition().is_none());
    assert!(tracker.set_state(StateId::Playing).is_ok());
    let change = tracker.begin_transition().unwrap();
    assert_eq!((change.leave, change.enter), (Some(StateId::Menu), StateId::Playing));
    tracker.finish_transition(change);
    assert_eq!(tracker.current_state_id(), Some(StateId::Playing));
    assert!(tracker.remove_state(StateId::Menu));
    assert!(!tracker.remove_state(StateId::Menu));
    assert!(tracker.set_state(StateId::Menu).is_err());
    assert_eq!(StateId::Settings.as_title(), "Settings");
}

#[test]
fn channel_mixes_its_clip() {
    // Samples 256, -2 and 32767, low byte first, and a byte left over.
    let clip = AudioClip::from_samples(vec![0, 1, 0xfe, 0xff, 0xff, 0x7f, 9], 44_100, 1);
    let mut channel = AudioChannel::new();
    let mut out = [10i16, 10, 10, 10, 10];
    channel.mix_audio(&mut out);
    assert_eq!(out, [10, 10, 10, 10, 10]);
    assert!(!channel.is_playing());

    channel.play(clip.clone(), false);
    channel.set_volume(500);
    channel.mix_audio(&mut out[..2]);
    assert_eq!(out, [138, 9, 10, 10, 10]);
    assert!(channel.is_playing());
    // The clip ends inside the buffer: the channel stops there.
    channel.mix_audio(&mut out);
    assert_eq!(out, [16_521, 9, 10, 10, 10]);
    assert!(!channel.is_playing());

    let mut full = AudioChannel::new();
    full.play(clip.clone(), false);
    full.set_volume(7_000);
    let mut loud = [32_000i16, -32_000];
    full.mix_audio(&mut loud);
    assert_eq!(loud, [32_256, -32_002]);
    let mut top = [32_767i16];
    full.mix_audio(&mut top);
    assert_eq!(top, [32_767]);
    full.stop();
    assert!(!full.is_playing());

    // A channel that loops begins again, leaving one place as it was.
    let mut again = AudioChannel::new();
    again.play(clip, true);
    let mut buffer = [0i16; 6];
    again.mix_audio(&mut buffer);
    assert_eq!(buffer, [256, -2, 32_767, 0, 0, 0]);
    assert!(again.is_playing());
}

#[test]
fn volumes() {
    assert_eq!(volume_from_percentage(50), 500);
    assert_eq!(volume_from_percentage(200), 1000);
    assert_eq!(volume_to_percentage(505), 50);
    assert_eq!(volume_to_percentage(-5), 0);
    assert_eq!(volume_to_percentage(5_000), 100);
    assert_eq!(apply_fade(500, 505, 1_000, 1_000), 505);
    assert_eq!(apply_fade(0, 1_000, 600, 30_000), 300);
    assert_eq!(apply_fade(900, 1_000, 600, 30_000), 1_000);
    assert_eq!(apply_fade(1_000, 0, 600, 30_000), 700);
    assert_eq!(apply_fade(100, 0, 600, 30_000), 0);
    assert_eq!(scale_sample(-3, 500), -1);
    assert_eq!(scale_sample(32_767, 2_000), 32_767);
    let config = AudioConfig::default();
    assert_eq!((config.master_volume, config.music_volume, config.sound_volume, config.enabled), (1000, 700, 800, true));
}
