//! Keyboard handling: which action each pressed key takes for each camera
//! type, and the unit vector of each movement direction.  The caller scales
//! the vectors and adds the rotation amounts.

use vstd::prelude::*;

verus! {

/// A direction the camera can move in, in the four-dimensional space.
#[derive(Clone, Copy, Debug, PartialEq, Eq)]
pub enum MoveDirection {
    Forward,
    Back,
    Left,
    Right,
    Up,
    Down,
    Ana,
    Kata,
}

/// How the view responds to input.
#[derive(Clone, Copy, Debug, PartialEq, Eq)]
pub enum CameraType {
    /// No camera changes; rotate the shape instead.
    Single,
    /// Move forward, back, left, right (and along the fourth axis), and look
    /// around; no vertical movement.
    FPS,
    /// No restriction on movement.
    Free,
}

/// The sense of a rotation.
#[derive(Clone, Copy, Debug, PartialEq, Eq)]
pub enum Turn {
    Increase,
    Decrease,
}

/// What a pressed key does.
#[derive(Clone, Copy, Debug, PartialEq, Eq)]
pub enum KeyAction {
    Nothing,
    /// Add the direction's unit vector, scaled by the move amount, to the
    /// camera position.
    MoveCamera(MoveDirection),
    /// Change the camera angle of the given plane (an index into the six
    /// rotation planes) by the rotate amount.
    RotateCamera(usize, Turn),
    /// Change the shape orientation of the given plane by the rotate amount.
    RotateShape(usize, Turn),
}

/// The unit vector of a direction: `z` forward, `x` right, `y` up, `u`
/// (the fourth axis) ana.
pub open spec fn unit_of(d: MoveDirection) -> Seq<i8> {
    match d {
        MoveDirection::Forward => seq![0i8, 0, 1, 0],
        MoveDirection::Back => seq![0i8, 0, -1i8, 0],
        MoveDirection::Left => seq![-1i8, 0, 0, 0],
        MoveDirection::Right => seq![1i8, 0, 0, 0],
        MoveDirection::Up => seq![0i8, 1, 0, 0],
        MoveDirection::Down => seq![0i8, -1i8, 0, 0],
        MoveDirection::Ana => seq![0i8, 0, 0, 1],
        MoveDirection::Kata => seq![0i8, 0, 0, -1i8],
    }
}

/// The opposite direction.
pub open spec fn reverse(d: MoveDirection) -> MoveDirection {
    match d {
        MoveDirection::Forward => MoveDirection::Back,
        MoveDirection::Back => MoveDirection::Forward,
        MoveDirection::Left => MoveDirection::Right,
        MoveDirection::Right => MoveDirection::Left,
        MoveDirection::Up => MoveDirection::Down,
        MoveDirection::Down => MoveDirection::Up,
        MoveDirection::Ana => MoveDirection::Kata,
        MoveDirection::Kata => MoveDirection::Ana,
    }
}

/// The unit vector of a movement direction, which the camera position is
/// moved along (scaled by the move amount).  The camera angles do not
/// enter: movement is along the world axes.
pub fn unit_vec(direction: MoveDirection) -> (v: [i8; 4])
    ensures
        v@ == unit_of(direction),
{
    match direction {
        MoveDirection::Forward => [0, 0, 1, 0],
        MoveDirection::Back => [0, 0, -1, 0],
        MoveDirection::Left => [-1, 0, 0, 0],
        MoveDirection::Right => [1, 0, 0, 0],
        MoveDirection::Up => [0, 1, 0, 0],
        MoveDirection::Down => [0, -1, 0, 0],
        MoveDirection::Ana => [0, 0, 0, 1],
        MoveDirection::Kata => [0, 0, 0, -1],
    }
}

/// Law: opposite directions have opposite unit vectors, and each unit
/// vector has exactly one non-zero component, of size one.
pub proof fn lemma_unit_vectors(d: MoveDirection)
    ensures
        unit_of(d).len() == 4,
        forall|i: int| 0 <= i < 4 ==> unit_of(reverse(d))[i] == -unit_of(d)[i],
        exists|i: int|
            0 <= i < 4 && (unit_of(d)[i] == 1 || unit_of(d)[i] == -1) && forall|j: int|
                0 <= j < 4 && j != i ==> unit_of(d)[j] == 0,
{
    match d {
        MoveDirection::Forward => assert(unit_of(d)[2] == 1),
        MoveDirection::Back => assert(unit_of(d)[2] == -1),
        MoveDirection::Left => assert(unit_of(d)[0] == -1),
        MoveDirection::Right => assert(unit_of(d)[0] == 1),
        MoveDirection::Up => assert(unit_of(d)[1] == 1),
        MoveDirection::Down => assert(unit_of(d)[1] == -1),
        MoveDirection::Ana => assert(unit_of(d)[3] == 1),
        MoveDirection::Kata => assert(unit_of(d)[3] == -1),
    }
}

/// The movement keys (scan codes): W forward, S back, A left, D right, C
/// and left control down, space up, F kata, R ana.
pub open spec fn key_move(code: u32) -> Option<MoveDirection> {
    if code == 17 {
        Some(MoveDirection::Forward)
    } else if code == 31 {
        Some(MoveDirection::Back)
    } else if code == 30 {
        Some(MoveDirection::Left)
    } else if code == 32 {
        Some(MoveDirection::Right)
    } else if code == 46 || code == 29 {
        Some(MoveDirection::Down)
    } else if code == 57 {
        Some(MoveDirection::Up)
    } else if code == 33 {
        Some(MoveDirection::Kata)
    } else if code == 19 {
        Some(MoveDirection::Ana)
    } else {
        None
    }
}

/// The rotation keys (scan codes) and the plane each turns: left/right
/// arrows plane 2, down/up arrows plane 1, Q/E plane 0; for the planes
/// through the fourth axis insert/delete plane 3, home/end plane 4, page
/// up/page down plane 5.
pub open spec fn key_rotation(code: u32) -> Option<(usize, Turn)> {
    if code == 75 {
        Some((2usize, Turn::Decrease))
    } else if code == 77 {
        Some((2usize, Turn::Increase))
    } else if code == 80 {
        Some((1usize, Turn::Decrease))
    } else if code == 72 {
        Some((1usize, Turn::Increase))
    } else if code == 16 {
        Some((0usize, Turn::Decrease))
    } else if code == 18 {
        Some((0usize, Turn::Increase))
    } else if code == 82 {
        Some((3usize, Turn::Increase))
    } else if code == 83 {
        Some((3usize, Turn::Decrease))
    } else if code == 71 {
        Some((4usize, Turn::Increase))
    } else if code == 79 {
        Some((4usize, Turn::Decrease))
    } else if code == 73 {
        Some((5usize, Turn::Increase))
    } else if code == 81 {
        Some((5usize, Turn::Decrease))
    } else {
        None
    }
}

/// What a key does for a camera type.  Movement keys move the camera,
/// except that a single-shape view never moves it and an FPS camera does
/// not move up or down.  Rotation keys turn the shape in a single-shape view
/// and the camera otherwise.  Other keys do nothing.
pub open spec fn key_action_for(code: u32, cam_type: CameraType) -> KeyAction {
    match key_move(code) {
        Some(d) => if cam_type == CameraType::Single || (cam_type == CameraType::FPS && (d
            == MoveDirection::Up || d == MoveDirection::Down)) {
            KeyAction::Nothing
        } else {
            KeyAction::MoveCamera(d)
        },
        None => match key_rotation(code) {
            Some((axis, turn)) => if cam_type == CameraType::Single {
                KeyAction::RotateShape(axis, turn)
            } else {
                KeyAction::RotateCamera(axis, turn)
            },
            None => KeyAction::Nothing,
        },
    }
}

/// The action of one pressed key (a keyboard scan code).
pub fn key_action(code: u32, cam_type: CameraType) -> (action: KeyAction)
    ensures
        action == key_action_for(code, cam_type),
{
    let single = match cam_type {
        CameraType::Single => true,
        _ => false,
    };
    let fps = match cam_type {
        CameraType::FPS => true,
        _ => false,
    };
    match code {
        17 => if single {
            KeyAction::Nothing
        } else {
            KeyAction::MoveCamera(MoveDirection::Forward)
        },
        31 => if single {
            KeyAction::Nothing
        } else {
            KeyAction::MoveCamera(MoveDirection::Back)
        },
        30 => if single {
            KeyAction::Nothing
        } else {
            KeyAction::MoveCamera(MoveDirection::Left)
        },
        32 => if single {
            KeyAction::Nothing
        } else {
            KeyAction::MoveCamera(MoveDirection::Right)
        },
        46 | 29 => if single || fps {
            KeyAction::Nothing
        } else {
            KeyAction::MoveCamera(MoveDirection::Down)
        },
        57 => if single || fps {
            KeyAction::Nothing
        } else {
            KeyAction::MoveCamera(MoveDirection::Up)
        },
        33 => if single {
            KeyAction::Nothing
        } else {
            KeyAction::MoveCamera(MoveDirection::Kata)
        },
        19 => if single {
            KeyAction::Nothing
        } else {
            KeyAction::MoveCamera(MoveDirection::Ana)
        },
        _ => {
            let rotation = if code == 75 {
                Some((2usize, Turn::Decrease))
            } else if code == 77 {
                Some((2usize, Turn::Increase))
            } else if code == 80 {
                Some((1usize, Turn::Decrease))
            } else if code == 72 {
                Some((1usize, Turn::Increase))
            } else if code == 16 {
                Some((0usize, Turn::Decrease))
            } else if code == 18 {
                Some((0usize, Turn::Increase))
            } else if code == 82 {
                Some((3usize, Turn::Increase))
            } else if code == 83 {
                Some((3usize, Turn::Decrease))
            } else if code == 71 {
                Some((4usize, Turn::Increase))
            } else if code == 79 {
                Some((4usize, Turn::Decrease))
            } else if code == 73 {
                Some((5usize, Turn::Increase))
            } else if code == 81 {
                Some((5usize, Turn::Decrease))
            } else {
                None
            };
            match rotation {
                Some((axis, turn)) => if single {
                    KeyAction::RotateShape(axis, turn)
                } else {
                    KeyAction::RotateCamera(axis, turn)
                },
                None => KeyAction::Nothing,
            }
        },
    }
}

/// The actions of the pressed keys, in the order pressed.
pub fn pressed_actions(pressed: &[u32], cam_type: CameraType) -> (actions: Vec<KeyAction>)
    ensures
        actions@.len() == pressed@.len(),
        forall|i: int|
            0 <= i < pressed@.len() ==> #[trigger] actions@[i] == key_action_for(pressed@[i], cam_type),
{
    let mut actions: Vec<KeyAction> = Vec::new();
    let mut i: usize = 0;
    while i < pressed.len()
        invariant
            0 <= i <= pressed@.len(),
            actions@.len() == i,
            forall|k: int|
                0 <= k < i ==> #[trigger] actions@[k] == key_action_for(pressed@[k], cam_type),
        decreases pressed@.len() - i,
    {
        actions.push(key_action(pressed[i], cam_type));
        i = i + 1;
    }
    actions
}

/// Law: a single-shape view never moves or turns the camera; an FPS camera
/// never moves up or down; only a single-shape view turns the shape; every
/// rotation is of one of the six planes.
pub proof fn lemma_key_action_rules(code: u32, cam_type: CameraType)
    ensures
        cam_type == CameraType::Single ==> (key_action_for(code, cam_type) is Nothing
            || key_action_for(code, cam_type) is RotateShape),
        cam_type == CameraType::FPS ==> key_action_for(code, cam_type) != KeyAction::MoveCamera(
            MoveDirection::Up,
        ) && key_action_for(code, cam_type) != KeyAction::MoveCamera(MoveDirection::Down),
        cam_type != CameraType::Single ==> !(key_action_for(code, cam_type) is RotateShape),
        key_action_for(code, cam_type) matches KeyAction::RotateCamera(axis, _) ==> axis < 6,
        key_action_for(code, cam_type) matches KeyAction::RotateShape(axis, _) ==> axis < 6,
{
}

/// Two actions undo each other: both nothing, moves in opposite
/// directions, or turns of the same plane in opposite senses.
pub open spec fn opposite_actions(a: KeyAction, b: KeyAction) -> bool {
    match (a, b) {
        (KeyAction::Nothing, KeyAction::Nothing) => true,
        (KeyAction::MoveCamera(d), KeyAction::MoveCamera(e)) => e == reverse(d),
        (KeyAction::RotateCamera(p, s), KeyAction::RotateCamera(q, t)) => p == q && s != t,
        (KeyAction::RotateShape(p, s), KeyAction::RotateShape(q, t)) => p == q && s != t,
        _ => false,
    }
}

/// Law: the keys come in pairs that undo each other, for every camera
/// type: W/S, A/D, space/C, space/left control, R/F, the left/right,
/// down/up arrows, Q/E, insert/delete, home/end, page up/page down.
pub proof fn lemma_opposite_keys(cam_type: CameraType)
    ensures
        opposite_actions(key_action_for(17, cam_type), key_action_for(31, cam_type)),
        opposite_actions(key_action_for(30, cam_type), key_action_for(32, cam_type)),
        opposite_actions(key_action_for(57, cam_type), key_action_for(46, cam_type)),
        opposite_actions(key_action_for(57, cam_type), key_action_for(29, cam_type)),
        opposite_actions(key_action_for(19, cam_type), key_action_for(33, cam_type)),
        opposite_actions(key_action_for(75, cam_type), key_action_for(77, cam_type)),
        opposite_actions(key_action_for(80, cam_type), key_action_for(72, cam_type)),
        opposite_actions(key_action_for(16, cam_type), key_action_for(18, cam_type)),
        opposite_actions(key_action_for(82, cam_type), key_action_for(83, cam_type)),
        opposite_actions(key_action_for(71, cam_type), key_action_for(79, cam_type)),
        opposite_actions(key_action_for(73, cam_type), key_action_for(81, cam_type)),
{
}

/// Whether a direction moves vertically.
pub open spec fn is_vertical(d: MoveDirection) -> bool {
    d == MoveDirection::Up || d == MoveDirection::Down
}

/// Law: how the camera types relate, for every key.  A free camera moves
/// along every movement key's direction; an FPS camera acts exactly as a
/// free camera except that the vertical movement keys do nothing; a
/// single-shape view turns the shape about the plane and in the sense that
/// a free camera turns the camera, and does nothing else.
pub proof fn lemma_camera_types(code: u32)
    ensures
        key_move(code) matches Some(d) ==> key_action_for(code, CameraType::Free)
            == KeyAction::MoveCamera(d),
        key_action_for(code, CameraType::Free) matches KeyAction::MoveCamera(d) ==> key_move(code)
            == Some(d),
        (key_action_for(code, CameraType::Free) matches KeyAction::MoveCamera(d) && is_vertical(d))
            ==> key_action_for(code, CameraType::FPS) == KeyAction::Nothing,
        !(key_action_for(code, CameraType::Free) matches KeyAction::MoveCamera(d) && is_vertical(d))
            ==> key_action_for(code, CameraType::FPS) == key_action_for(code, CameraType::Free),
        forall|axis: usize, turn: Turn|
            (key_action_for(code, CameraType::Single) == KeyAction::RotateShape(axis, turn)) == (
            key_action_for(code, CameraType::Free) == KeyAction::RotateCamera(axis, turn)),
        !(key_action_for(code, CameraType::Free) is RotateCamera) ==> key_action_for(
            code,
            CameraType::Single,
        ) == KeyAction::Nothing,
{
}

} // verus!
