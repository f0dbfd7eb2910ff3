//! The fly camera of the scene view: what the pressed keys and the mouse
//! ask of it.

use vstd::prelude::*;

verus! {

/// Which of the camera's keys are held down.
#[derive(Clone, Copy, Debug, PartialEq, Eq, Structural)]
pub struct KeysDown {
    pub forward: bool,
    pub back: bool,
    pub left: bool,
    pub right: bool,
    pub up: bool,
    pub down: bool,
    pub boost: bool,
}

/// A move of the camera along its own axes.
#[derive(Clone, Copy, Debug, PartialEq, Eq, Structural)]
pub struct Movement {
    /// To the right (1) or to the left (-1).
    pub sideways: i8,
    /// Forward (1) or back (-1).
    pub forward: i8,
    /// Up (1) or down (-1).
    pub up: i8,
    /// Units in a second.
    pub speed: u8,
}

/// What the camera does in a frame.
#[derive(Clone, Copy, Debug, PartialEq, Eq, Structural)]
pub enum CameraStep {
    /// The camera is not steered: nothing is read, nothing moves.
    Skip,
    /// The camera is steered and no key pulls: the wheel is read and
    /// nothing moves.
    Idle,
    /// The camera moves; the wheel adds to the move forward.
    Move(Movement),
}

/// The speed of the camera, in units in a second.
pub const SPEED: u8 = 5;

/// The speed of the camera while the boost key is held.
pub const BOOST_SPEED: u8 = 20;

/// The pull of two opposite keys: 1 for the first alone, -1 for the second
/// alone, 0 for both or none.
pub open spec fn axis(plus: bool, minus: bool) -> int {
    (if plus {
        1int
    } else {
        0int
    }) - (if minus {
        1int
    } else {
        0int
    })
}

/// What the keys ask of the camera. It is steered while moving is switched
/// on and the pointer is over the scene view; it moves while an axis pulls.
pub open spec fn step_of(enabled: bool, over_scene: bool, keys: KeysDown) -> CameraStep {
    let sideways = axis(keys.right, keys.left);
    let forward = axis(keys.forward, keys.back);
    let up = axis(keys.up, keys.down);
    if !enabled || !over_scene {
        CameraStep::Skip
    } else if sideways == 0 && forward == 0 && up == 0 {
        CameraStep::Idle
    } else {
        CameraStep::Move(
            Movement {
                sideways: sideways as i8,
                forward: forward as i8,
                up: up as i8,
                speed: if keys.boost {
                    BOOST_SPEED
                } else {
                    SPEED
                },
            },
        )
    }
}

fn pull(plus: bool, minus: bool) -> (value: i8)
    ensures
        value == axis(plus, minus),
{
    if plus && !minus {
        1
    } else if minus && !plus {
        -1
    } else {
        0
    }
}

/// What the camera does in this frame. `over_scene` tells whether the
/// pointer is over the scene view.
pub fn camera_movement(enable_movement: bool, over_scene: bool, keys: KeysDown) -> (step:
    CameraStep)
    ensures
        step == step_of(enable_movement, over_scene, keys),
{
    if !enable_movement || !over_scene {
        return CameraStep::Skip;
    }
    let sideways: i8 = pull(keys.right, keys.left);
    let forward: i8 = pull(keys.forward, keys.back);
    let up: i8 = pull(keys.up, keys.down);
    if forward == 0 && sideways == 0 && up == 0 {
        return CameraStep::Idle;
    }
    let speed: u8 = if keys.boost {
        BOOST_SPEED
    } else {
        SPEED
    };
    CameraStep::Move(Movement { sideways, forward, up, speed })
}

/// Whether the mouse steers the camera's view: the right button is held
/// over the scene view and looking is switched on.
pub fn camera_look(right_button: bool, over_scene: bool, enable_look: bool) -> (steered: bool)
    ensures
        steered == (right_button && over_scene && enable_look),
{
    if !right_button || !over_scene {
        return false;
    }
    enable_look
}

} // verus!
