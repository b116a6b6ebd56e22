use genesys::animation::{Animated, AnimationPlayer};
use genesys::entities::{character, load_assets};
use genesys::input::{InputData, Key, WorldVector};
use genesys::player::{initialize_player, player_movement, translation_magnitude};
use genesys::registry::AssetRegistry;

fn loaded_registry() -> AssetRegistry {
    let mut reg = AssetRegistry::new();
    load_assets(&mut reg).unwrap();
    reg
}

fn origin() -> WorldVector {
    WorldVector { x: 0, y: 0, z: 0 }
}

#[test]
fn pressed_keys_accumulate_in_press_order() {
    let mut input = InputData::new();
    input.press_key(Key::Forward);
    input.press_key(Key::Backward);
    input.press_key(Key::Forward);
    assert_eq!(input.pressed_keys, vec![Key::Forward, Key::Backward]);
    input.release_key(Key::Forward);
    assert_eq!(input.pressed_keys, vec![Key::Backward]);
    input.release_key(Key::Backward);
    assert!(input.pressed_keys.is_empty());
}

#[test]
fn failed_projection_keeps_the_last_mouse_coordinate() {
    let mut input = InputData::new();
    input.update_mouse(Some(WorldVector { x: 5000, y: 0, z: 5000 }));
    assert_eq!(
        input.mouse_position.coordinates,
        WorldVector { x: 5000, y: 0, z: 5000 }
    );
    // A ray parallel to the ground plane yields no intersection this tick:
    // the coordinate is unchanged and nothing fails.
    input.update_mouse(None);
    assert_eq!(
        input.mouse_position.coordinates,
        WorldVector { x: 5000, y: 0, z: 5000 }
    );
}

#[test]
fn update_state_applies_presses_releases_then_the_projection() {
    let mut input = InputData::new();
    input.update_state(
        &vec![Key::Forward, Key::StrafeLeft],
        &vec![Key::Forward],
        Some(WorldVector { x: 1000, y: 0, z: 2000 }),
    );
    assert_eq!(input.pressed_keys, vec![Key::StrafeLeft]);
    assert_eq!(
        input.mouse_position.coordinates,
        WorldVector { x: 1000, y: 0, z: 2000 }
    );
}

#[test]
fn empty_key_set_means_idle_and_zero_translation() {
    let reg = loaded_registry();
    let mut input = InputData::new();
    input.update_mouse(Some(WorldVector { x: -7000, y: 0, z: 3000 }));
    let m = player_movement(&input, &origin(), 5500, 16, &reg).unwrap();
    assert!(!m.walking);
    assert_eq!(m.animation, character::Animation::Idle);
    assert_eq!(m.translation, WorldVector { x: 0, y: 0, z: 0 });
    let idle = character::get_animation(
        &character::Variant::Player,
        &character::Animation::Idle,
        &reg,
    )
    .unwrap();
    assert_eq!(m.animation_handle, idle);
}

#[test]
fn forward_key_moves_by_speed_times_elapsed_along_forward() {
    let reg = loaded_registry();
    let mut input = InputData::new();
    input.press_key(Key::Forward);
    // Speed constant 2.0 units/s, elapsed 1.0 s: magnitude exactly 2.0
    // units along the body-frame forward axis.
    let m = player_movement(&input, &origin(), 2000, 1000, &reg).unwrap();
    assert!(m.walking);
    assert_eq!(m.animation, character::Animation::Walk);
    assert_eq!(m.translation, WorldVector { x: 0, y: 0, z: 2000 });
    let walk = character::get_animation(
        &character::Variant::Player,
        &character::Animation::Walk,
        &reg,
    )
    .unwrap();
    assert_eq!(m.animation_handle, walk);
}

#[test]
fn first_pressed_key_wins_the_tie_break() {
    let reg = loaded_registry();
    let mut input = InputData::new();
    input.press_key(Key::Backward);
    input.press_key(Key::Forward);
    let m = player_movement(&input, &origin(), 2000, 1000, &reg).unwrap();
    assert_eq!(m.translation, WorldVector { x: 0, y: 0, z: -2000 });
}

#[test]
fn facing_points_from_the_entity_to_the_mouse() {
    let reg = loaded_registry();
    let mut input = InputData::new();
    // Mouse world coordinate (5, 0, 5) against an entity at the origin.
    input.update_mouse(Some(WorldVector { x: 5000, y: 0, z: 5000 }));
    let m = player_movement(&input, &origin(), 5500, 16, &reg).unwrap();
    assert_eq!(m.facing_x, 5000);
    assert_eq!(m.facing_z, 5000);
    let angle = (m.facing_x as f64).atan2(m.facing_z as f64);
    assert!((angle - std::f64::consts::FRAC_PI_4).abs() < 1e-12);
}

#[test]
fn magnitude_scales_exactly() {
    assert_eq!(translation_magnitude(2000, 1000), 2000);
    assert_eq!(translation_magnitude(5500, 16), 88);
    assert_eq!(translation_magnitude(5500, 0), 0);
}

#[test]
fn player_spawns_at_the_origin_with_the_idle_clip() {
    let reg = loaded_registry();
    let (se, animated) = initialize_player(&reg).unwrap();
    assert_eq!(se.coordinates.x, 0);
    assert_eq!(se.coordinates.y, 0);
    assert_eq!(se.coordinates.z, 0);
    let idle = character::get_animation(
        &character::Variant::Player,
        &character::Animation::Idle,
        &reg,
    )
    .unwrap();
    assert_eq!(animated.handle, idle);
}

#[test]
fn an_unchanged_clip_assignment_does_not_restart_it() {
    let reg = loaded_registry();
    let idle = character::get_animation(
        &character::Variant::Player,
        &character::Animation::Idle,
        &reg,
    )
    .unwrap();
    let walk = character::get_animation(
        &character::Variant::Player,
        &character::Animation::Walk,
        &reg,
    )
    .unwrap();
    let mut player = AnimationPlayer::new();
    assert!(player.play_animation(&Animated { handle: idle }));
    assert!(!player.play_animation(&Animated { handle: idle }));
    assert!(player.play_animation(&Animated { handle: walk }));
    assert!(!player.play_animation(&Animated { handle: walk }));
}
