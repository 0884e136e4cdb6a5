//! Integer rules of the settings panel.

use vstd::prelude::*;

verus! {

/// Fewest chunks the render distance may be set to.
pub const MIN_RENDER_DISTANCE: i32 = 1;

/// Most chunks the render distance may be set to.
pub const MAX_RENDER_DISTANCE: i32 = 16;

/// Cells per unit of the displayed world scale.
pub const CELLS_PER_SCALE: i32 = 32;

/// Render distance after pressing a ±`delta` button: the sum clamped to
/// `[MIN_RENDER_DISTANCE, MAX_RENDER_DISTANCE]`.
pub fn adjust_render_distance(current: i32, delta: i32) -> (r: i32)
    requires
        i32::MIN <= current + delta <= i32::MAX,
    ensures
        r == if current + delta < MIN_RENDER_DISTANCE {
            MIN_RENDER_DISTANCE as int
        } else if current + delta > MAX_RENDER_DISTANCE {
            MAX_RENDER_DISTANCE as int
        } else {
            current + delta
        },
        MIN_RENDER_DISTANCE <= r <= MAX_RENDER_DISTANCE,
{
    let v = current + delta;
    if v < MIN_RENDER_DISTANCE {
        MIN_RENDER_DISTANCE
    } else if v > MAX_RENDER_DISTANCE {
        MAX_RENDER_DISTANCE
    } else {
        v
    }
}

/// The world scale shown next to the world radius: whole multiples of
/// `CELLS_PER_SCALE` cells, at least 1.
pub fn world_scale_factor(radius_cells: i32) -> (f: i32)
    ensures
        f == if radius_cells < CELLS_PER_SCALE { 1 } else { radius_cells / CELLS_PER_SCALE },
        f >= 1,
{
    if radius_cells < CELLS_PER_SCALE {
        1
    } else {
        radius_cells / CELLS_PER_SCALE
    }
}

} // verus!
