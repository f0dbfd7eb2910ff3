use scene_inspector::inspector::camera_movement::{
    camera_look, camera_movement, CameraStep, KeysDown, Movement, BOOST_SPEED, SPEED,
};
use scene_inspector::inspector::default_scene::{set_camera_viewport, Viewport};

fn none() -> KeysDown {
    KeysDown { forward: false, back: false, left: false, right: false, up: false, down: false, boost: false }
}

#[test]
fn no_key_no_move() {
    assert_eq!(camera_movement(true, true, none()), CameraStep::Idle);
    assert_eq!(camera_movement(true, true, KeysDown { boost: true, ..none() }), CameraStep::Idle);
}

#[test]
fn keys_pull_along_their_axes() {
    assert_eq!(
        camera_movement(true, true, KeysDown { forward: true, ..none() }),
        CameraStep::Move(Movement { sideways: 0, forward: 1, up: 0, speed: 5 })
    );
    assert_eq!(
        camera_movement(true, true, KeysDown { back: true, ..none() }),
        CameraStep::Move(Movement { sideways: 0, forward: -1, up: 0, speed: 5 })
    );
    assert_eq!(
        camera_movement(true, true, KeysDown { right: true, ..none() }),
        CameraStep::Move(Movement { sideways: 1, forward: 0, up: 0, speed: 5 })
    );
    assert_eq!(
        camera_movement(true, true, KeysDown { left: true, ..none() }),
        CameraStep::Move(Movement { sideways: -1, forward: 0, up: 0, speed: 5 })
    );
    assert_eq!(
        camera_movement(true, true, KeysDown { up: true, ..none() }),
        CameraStep::Move(Movement { sideways: 0, forward: 0, up: 1, speed: 5 })
    );
    assert_eq!(
        camera_movement(true, true, KeysDown { down: true, ..none() }),
        CameraStep::Move(Movement { sideways: 0, forward: 0, up: -1, speed: 5 })
    );
}

#[test]
fn opposite_keys_cancel() {
    assert_eq!(
        camera_movement(true, true, KeysDown { forward: true, back: true, ..none() }),
        CameraStep::Idle
    );
    assert_eq!(
        camera_movement(true, true, KeysDown { forward: true, back: true, left: true, ..none() }),
        CameraStep::Move(Movement { sideways: -1, forward: 0, up: 0, speed: 5 })
    );
    let all = KeysDown { forward: true, back: true, left: true, right: true, up: true, down: true, boost: true };
    assert_eq!(camera_movement(true, true, all), CameraStep::Idle);
}

#[test]
fn boost_key_raises_the_speed() {
    assert_eq!(SPEED, 5);
    assert_eq!(BOOST_SPEED, 20);
    assert_eq!(
        camera_movement(true, true, KeysDown { forward: true, up: true, boost: true, ..none() }),
        CameraStep::Move(Movement { sideways: 0, forward: 1, up: 1, speed: 20 })
    );
}

#[test]
fn no_move_while_switched_off_or_outside_the_view() {
    let keys = KeysDown { forward: true, ..none() };
    assert_eq!(camera_movement(false, true, keys), CameraStep::Skip);
    assert_eq!(camera_movement(true, false, keys), CameraStep::Skip);
    assert_eq!(camera_movement(false, false, keys), CameraStep::Skip);
    assert_eq!(camera_movement(false, true, none()), CameraStep::Skip);
}

#[test]
fn camera_turns_with_the_right_button_over_the_view() {
    assert!(camera_look(true, true, true));
}

#[test]
fn camera_does_not_turn_otherwise() {
    for right in [false, true] {
        for over in [false, true] {
            for enabled in [false, true] {
                assert_eq!(camera_look(right, over, enabled), right && over && enabled);
            }
        }
    }
}

#[test]
fn without_cameras_nothing_changes() {
    assert_eq!(set_camera_viewport(&[], false), Viewport { camera: None, exist_game_camera: false });
    assert_eq!(set_camera_viewport(&[], true), Viewport { camera: None, exist_game_camera: true });
}

#[test]
fn first_camera_that_is_on_renders() {
    assert_eq!(
        set_camera_viewport(&[true], false),
        Viewport { camera: Some(0), exist_game_camera: true }
    );
    assert_eq!(
        set_camera_viewport(&[false, false, true, true], false),
        Viewport { camera: Some(2), exist_game_camera: true }
    );
    assert_eq!(
        set_camera_viewport(&[true, false], true),
        Viewport { camera: Some(0), exist_game_camera: true }
    );
}

#[test]
fn cameras_that_are_all_off_leave_no_game_camera() {
    assert_eq!(
        set_camera_viewport(&[false], true),
        Viewport { camera: None, exist_game_camera: false }
    );
    assert_eq!(
        set_camera_viewport(&[false, false, false], true),
        Viewport { camera: None, exist_game_camera: false }
    );
    assert_eq!(
        set_camera_viewport(&[false, false], false),
        Viewport { camera: None, exist_game_camera: false }
    );
}
