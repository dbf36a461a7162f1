use fourd::input::{
    key_action, pressed_actions, unit_vec, CameraType, KeyAction, MoveDirection, Turn,
};

#[test]
fn movement_keys() {
    assert_eq!(key_action(17, CameraType::Free), KeyAction::MoveCamera(MoveDirection::Forward));
    assert_eq!(key_action(17, CameraType::FPS), KeyAction::MoveCamera(MoveDirection::Forward));
    assert_eq!(key_action(17, CameraType::Single), KeyAction::Nothing);
    assert_eq!(key_action(57, CameraType::Free), KeyAction::MoveCamera(MoveDirection::Up));
    assert_eq!(key_action(57, CameraType::FPS), KeyAction::Nothing);
    assert_eq!(key_action(29, CameraType::Free), KeyAction::MoveCamera(MoveDirection::Down));
    assert_eq!(key_action(33, CameraType::FPS), KeyAction::MoveCamera(MoveDirection::Kata));
    assert_eq!(key_action(19, CameraType::Free), KeyAction::MoveCamera(MoveDirection::Ana));
}

#[test]
fn rotation_keys() {
    assert_eq!(key_action(75, CameraType::Single), KeyAction::RotateShape(2, Turn::Decrease));
    assert_eq!(key_action(75, CameraType::FPS), KeyAction::RotateCamera(2, Turn::Decrease));
    assert_eq!(key_action(72, CameraType::Free), KeyAction::RotateCamera(1, Turn::Increase));
    assert_eq!(key_action(83, CameraType::Single), KeyAction::RotateShape(3, Turn::Decrease));
    assert_eq!(key_action(73, CameraType::Free), KeyAction::RotateCamera(5, Turn::Increase));
    assert_eq!(key_action(1, CameraType::Free), KeyAction::Nothing);
}

#[test]
fn opposite_keys_undo_each_other() {
    assert_eq!(key_action(30, CameraType::Free), KeyAction::MoveCamera(MoveDirection::Left));
    assert_eq!(key_action(32, CameraType::Free), KeyAction::MoveCamera(MoveDirection::Right));
    assert_eq!(key_action(16, CameraType::Single), KeyAction::RotateShape(0, Turn::Decrease));
    assert_eq!(key_action(18, CameraType::Single), KeyAction::RotateShape(0, Turn::Increase));
    assert_eq!(key_action(71, CameraType::FPS), KeyAction::RotateCamera(4, Turn::Increase));
    assert_eq!(key_action(79, CameraType::FPS), KeyAction::RotateCamera(4, Turn::Decrease));
}

#[test]
fn pressed_keys_in_order() {
    assert_eq!(
        pressed_actions(&[17, 83, 2], CameraType::Free),
        vec![
            KeyAction::MoveCamera(MoveDirection::Forward),
            KeyAction::RotateCamera(3, Turn::Decrease),
            KeyAction::Nothing
        ]
    );
    assert_eq!(pressed_actions(&[], CameraType::Free), vec![]);
}

#[test]
fn unit_vectors() {
    assert_eq!(unit_vec(MoveDirection::Forward), [0, 0, 1, 0]);
    assert_eq!(unit_vec(MoveDirection::Back), [0, 0, -1, 0]);
    assert_eq!(unit_vec(MoveDirection::Left), [-1, 0, 0, 0]);
    assert_eq!(unit_vec(MoveDirection::Down), [0, -1, 0, 0]);
    assert_eq!(unit_vec(MoveDirection::Kata), [0, 0, 0, -1]);
}
