//! Which way the player's keys move and turn the whale.
use vstd::prelude::*;

verus! {

/// The direction keys held down this frame.
#[derive(Clone, Copy, Debug, PartialEq, Eq, Structural)]
pub struct HeldKeys {
    pub up: bool,
    pub down: bool,
    pub left: bool,
    pub right: bool,
}

/// `1` when only `pos` is held, `-1` when only `neg` is, `0` otherwise.
pub open spec fn axis(pos: bool, neg: bool) -> int {
    (if pos {
        1int
    } else {
        0int
    }) - (if neg {
        1int
    } else {
        0int
    })
}

fn axis_exec(pos: bool, neg: bool) -> (r: i8)
    ensures
        r == axis(pos, neg),
{
    let mut r: i8 = 0;
    if pos {
        r = r + 1;
    }
    if neg {
        r = r - 1;
    }
    r
}

/// Horizontal and vertical movement, each -1, 0 or 1; opposite keys cancel.
pub fn movement_axes(keys: &HeldKeys) -> (r: (i8, i8))
    ensures
        r.0 == axis(keys.right, keys.left),
        r.1 == axis(keys.up, keys.down),
{
    (axis_exec(keys.right, keys.left), axis_exec(keys.up, keys.down))
}

/// The direction the whale turns toward, in the frame of its sprite, whose
/// nose points along the y axis: up turns it toward -x, right toward +y.
pub fn facing_axes(keys: &HeldKeys) -> (r: (i8, i8))
    ensures
        r.0 == axis(keys.down, keys.up),
        r.1 == axis(keys.right, keys.left),
{
    (axis_exec(keys.down, keys.up), axis_exec(keys.right, keys.left))
}

} // verus!
