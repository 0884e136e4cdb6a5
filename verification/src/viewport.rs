//! Split-screen layout for the two-player simulation: the window is
//! cut into two side-by-side halves, player slot 0 on the left.

use vstd::prelude::*;

verus! {

/// A viewport in physical pixels.
#[derive(Clone, Copy, Debug, PartialEq, Eq, Structural)]
pub struct ViewportRect {
    pub x: u32,
    pub y: u32,
    pub width: u32,
    pub height: u32,
}

/// The viewport of player `slot` in a `width × height` window.
pub open spec fn viewport_of(slot: u8, width: u32, height: u32) -> ViewportRect {
    ViewportRect { x: (slot * (width / 2)) as u32, y: 0, width: width / 2, height }
}

/// Viewport of player `slot` (0 or 1): the left or right half of the
/// window, full height.
pub fn split_screen_viewport(slot: u8, width: u32, height: u32) -> (v: ViewportRect)
    requires
        slot < 2,
    ensures
        v == viewport_of(slot, width, height),
        v.y == 0,
        v.height == height,
        v.width == width / 2,
        v.x == slot * (width / 2),
{
    let half_w = width / 2;
    let s = slot as u32;
    assert(s * half_w <= half_w) by (nonlinear_arith)
        requires
            s < 2,
    ;
    let x_offset = s * half_w;
    ViewportRect { x: x_offset, y: 0, width: half_w, height }
}

/// Each half spans the whole window height from its top edge, whatever
/// the window's aspect ratio, and is half the window wide.
pub proof fn lemma_viewport_full_height(slot: u8, width: u32, height: u32)
    requires
        slot < 2,
    ensures
        viewport_of(slot, width, height).y == 0,
        viewport_of(slot, width, height).height == height,
        viewport_of(slot, width, height).width == width / 2,
        viewport_of(slot, width, height).x == slot * (width / 2),
{
    assert(slot * (width / 2) <= width / 2) by (nonlinear_arith)
        requires
            slot < 2,
    ;
}

/// The two halves sit side by side without overlapping, and together
/// stay inside the window.
pub proof fn lemma_split_screen_tiles(width: u32, height: u32)
    ensures
        viewport_of(0, width, height).x == 0,
        viewport_of(0, width, height).x + viewport_of(0, width, height).width == viewport_of(1, width, height).x,
        viewport_of(1, width, height).x + viewport_of(1, width, height).width <= width,
        viewport_of(0, width, height).width == viewport_of(1, width, height).width,
{
}

} // verus!
