//! The cameras of the game as the game view sees them.

use vstd::prelude::*;

verus! {

/// The place of the first camera that is switched on, or the number of
/// cameras where none is.
pub open spec fn first_active(active: Seq<bool>) -> int
    decreases active.len(),
{
    if active.len() == 0 || active[0] {
        0
    } else {
        1 + first_active(active.drop_first())
    }
}

/// The first camera that is switched on lies within the list or at its end,
/// and before it none is switched on.
pub proof fn lemma_first_active(active: Seq<bool>)
    ensures
        0 <= first_active(active) <= active.len(),
        first_active(active) < active.len() ==> active[first_active(active)],
        forall|k: int| 0 <= k < first_active(active) ==> !active[k],
    decreases active.len(),
{
    if active.len() > 0 && !active[0] {
        let rest = active.drop_first();
        lemma_first_active(rest);
        assert forall|k: int| 0 <= k < first_active(active) implies !active[k] by {
            if k > 0 {
                assert(rest[k - 1] == active[k]);
            }
        }
    }
}

/// What the game view does with the game's cameras.
#[derive(Clone, Copy, Debug, PartialEq, Eq, Structural)]
pub struct Viewport {
    /// The camera that renders into the game view.
    pub camera: Option<usize>,
    /// Whether the game has a camera that is switched on.
    pub exist_game_camera: bool,
}

/// The viewport for cameras of which `active` tells which are switched on:
/// the first of these renders into the game view. Without any camera what
/// was known before stays.
pub open spec fn viewport_of(active: Seq<bool>, known: bool) -> Viewport {
    let first = first_active(active);
    if first < active.len() {
        Viewport { camera: Some(first as usize), exist_game_camera: true }
    } else if active.len() > 0 {
        Viewport { camera: None, exist_game_camera: false }
    } else {
        Viewport { camera: None, exist_game_camera: known }
    }
}

/// Picks the camera of the game view. `active` holds for each camera of the
/// game whether it is switched on, `exist_game_camera` what the last frame
/// found.
pub fn set_camera_viewport(active: &[bool], exist_game_camera: bool) -> (viewport: Viewport)
    ensures
        viewport == viewport_of(active@, exist_game_camera),
{
    let mut exists: bool = exist_game_camera;
    let mut i: usize = 0;
    while i < active.len()
        invariant
            i <= active.len(),
            forall|k: int| 0 <= k < i ==> !active[k],
            exists == if i == 0 {
                exist_game_camera
            } else {
                false
            },
        decreases active.len() - i,
    {
        if !active[i] {
            exists = false;
            i = i + 1;
            continue ;
        }
        proof {
            lemma_first_active(active@);
        }
        return Viewport { camera: Some(i), exist_game_camera: true };
    }
    proof {
        lemma_first_active(active@);
    }
    Viewport { camera: None, exist_game_camera: exists }
}

} // verus!
