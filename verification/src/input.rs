//! Integer core of the keyboard handlers: which way the pressed keys
//! point. The caller turns the axes into a camera-relative world
//! direction.

use vstd::prelude::*;

verus! {

/// Height of one debug teleport step, in world units.
pub const TELEPORT_STEP: i8 = 3;

/// -1, 0 or +1 from a pair of opposing keys (both pressed cancel out).
pub fn key_axis(negative: bool, positive: bool) -> (a: i8)
    ensures
        a == (if positive { 1int } else { 0int }) - (if negative { 1int } else { 0int }),
{
    let mut a: i8 = 0;
    if positive {
        a = a + 1;
    }
    if negative {
        a = a - 1;
    }
    a
}

/// Local movement axes `(x, y)` (x to the right, y forward) from the
/// four movement keys, or `None` when they cancel out to no movement.
pub fn move_axes(forward: bool, back: bool, left: bool, right: bool) -> (r: Option<(i8, i8)>)
    ensures
        match r {
            Some((x, y)) => {
                &&& x == (if right { 1int } else { 0int }) - (if left { 1int } else { 0int })
                &&& y == (if forward { 1int } else { 0int }) - (if back { 1int } else { 0int })
                &&& (x != 0 || y != 0)
            },
            None => (left == right) && (forward == back),
        },
{
    let x = key_axis(left, right);
    let y = key_axis(back, forward);
    if x == 0 && y == 0 {
        None
    } else {
        Some((x, y))
    }
}

/// Orbit direction from the two orbit keys, or `None` when they cancel
/// out.
pub fn orbit_axis(counter_clockwise: bool, clockwise: bool) -> (r: Option<i8>)
    ensures
        match r {
            Some(d) => d == (if clockwise { 1int } else { -1int }) && counter_clockwise != clockwise,
            None => counter_clockwise == clockwise,
        },
{
    let d = key_axis(counter_clockwise, clockwise);
    if d == 0 {
        None
    } else {
        Some(d)
    }
}

/// Vertical debug teleport: up one step when the key was just pressed,
/// down one step when shift is held as well.
pub fn teleport_step(just_pressed: bool, shift_held: bool) -> (r: Option<i8>)
    ensures
        !just_pressed ==> r == None::<i8>,
        just_pressed && shift_held ==> (r matches Some(d) && d == -TELEPORT_STEP),
        just_pressed && !shift_held ==> r == Some(TELEPORT_STEP),
{
    if just_pressed {
        if shift_held {
            Some(-TELEPORT_STEP)
        } else {
            Some(TELEPORT_STEP)
        }
    } else {
        None
    }
}

} // verus!
