//! Procedural 16×16 RGBA sprites for the three monster kinds:
//! 0 = red wolf (pointy ears, two small eyes), 1 = green frog (two big
//! eyes), anything else = blue ghost (wavy bottom, one big eye with a
//! pupil). The body is a lower ellipse (centre (7.5, 11.5), half-axes
//! 5 × 4) joined to a head ellipse (centre (7.5, 4.5), half-axes 5 × 3).

use vstd::prelude::*;

verus! {

/// Sprite side length in pixels.
pub const SPRITE_SIZE: usize = 16;

/// An RGBA colour.
pub type Rgba = (u8, u8, u8, u8);

/// Fully transparent black.
pub open spec fn clear() -> Rgba {
    (0, 0, 0, 0)
}

/// Body colour of each kind.
pub open spec fn body_colour(kind: u8) -> Rgba {
    if kind == 0 {
        (200, 60, 50, 255)
    } else if kind == 1 {
        (60, 180, 80, 255)
    } else {
        (90, 140, 220, 255)
    }
}

/// Eye colour of each kind.
pub open spec fn eye_colour(kind: u8) -> Rgba {
    if kind == 0 {
        (255, 255, 255, 255)
    } else if kind == 1 {
        (10, 10, 10, 255)
    } else {
        (255, 240, 200, 255)
    }
}

/// Whether pixel `(x, y)` lies in the body ellipse (rows 7 and below)
/// or the head ellipse (rows above 8). Both inequalities are the
/// ellipse equations multiplied out to integers.
pub open spec fn in_silhouette(x: int, y: int) -> bool {
    let a = 2 * x - 15;
    let b_body = 2 * y - 23;
    let b_head = 2 * y - 9;
    (y >= 7 && 16 * (a * a) + 25 * (b_body * b_body) <= 1600) || (y < 8 && 9 * (a * a) + 25 * (b_head * b_head)
        <= 900)
}

/// The colour that the kind's decorations give pixel `(x, y)`, if any.
pub open spec fn decoration(kind: u8, x: int, y: int) -> Option<Rgba> {
    if kind == 0 {
        if (x == 5 || x == 10) && y == 4 {
            Some(eye_colour(kind))
        } else if y < 3 && ((3 <= x && x < 6 - y) || (10 + y <= x && x <= 12)) {
            Some(body_colour(kind))
        } else {
            None
        }
    } else if kind == 1 {
        if 3 <= y < 5 && ((4 <= x < 6) || (10 <= x < 12)) {
            Some(eye_colour(kind))
        } else {
            None
        }
    } else {
        if x == 7 && y == 5 {
            Some((10, 10, 10, 255))
        } else if 6 <= x < 9 && 4 <= y < 7 {
            Some(eye_colour(kind))
        } else if (y == 14 && x % 4 == 0) || (y == 15 && (x % 4 == 0 || x % 4 == 1)) {
            Some(clear())
        } else {
            None
        }
    }
}

/// Final colour of pixel `(x, y)` of the sprite of `kind`.
pub open spec fn sprite_pixel(kind: u8, x: int, y: int) -> Rgba {
    match decoration(kind, x, y) {
        Some(c) => c,
        None => if in_silhouette(x, y) { body_colour(kind) } else { clear() },
    }
}

/// Channel `c` (0 = red … 3 = alpha) of a colour.
pub open spec fn channel(px: Rgba, c: int) -> u8 {
    if c == 0 {
        px.0
    } else if c == 1 {
        px.1
    } else if c == 2 {
        px.2
    } else {
        px.3
    }
}

fn body_rgba(kind: u8) -> (c: Rgba)
    ensures
        c == body_colour(kind),
{
    if kind == 0 {
        (200, 60, 50, 255)
    } else if kind == 1 {
        (60, 180, 80, 255)
    } else {
        (90, 140, 220, 255)
    }
}

fn eye_rgba(kind: u8) -> (c: Rgba)
    ensures
        c == eye_colour(kind),
{
    if kind == 0 {
        (255, 255, 255, 255)
    } else if kind == 1 {
        (10, 10, 10, 255)
    } else {
        (255, 240, 200, 255)
    }
}

fn silhouette_contains(x: i32, y: i32) -> (b: bool)
    requires
        0 <= x < 16,
        0 <= y < 16,
    ensures
        b == in_silhouette(x as int, y as int),
{
    let a: i32 = 2 * x - 15;
    let b_body: i32 = 2 * y - 23;
    let b_head: i32 = 2 * y - 9;
    assert(0 <= a * a <= 289) by (nonlinear_arith)
        requires
            -15 <= a <= 17,
    ;
    assert(0 <= b_body * b_body <= 529) by (nonlinear_arith)
        requires
            -23 <= b_body <= 7,
    ;
    assert(0 <= b_head * b_head <= 441) by (nonlinear_arith)
        requires
            -9 <= b_head <= 21,
    ;
    (y >= 7 && 16 * (a * a) + 25 * (b_body * b_body) <= 1600) || (y < 8 && 9 * (a * a) + 25 * (b_head
        * b_head) <= 900)
}

/// Colour of pixel `(x, y)` of the sprite of `kind`.
pub fn monster_sprite_pixel(kind: u8, x: i32, y: i32) -> (c: Rgba)
    requires
        0 <= x < 16,
        0 <= y < 16,
    ensures
        c == sprite_pixel(kind, x as int, y as int),
{
    if kind == 0 {
        if (x == 5 || x == 10) && y == 4 {
            return eye_rgba(kind);
        } else if y < 3 && ((3 <= x && x < 6 - y) || (10 + y <= x && x <= 12)) {
            return body_rgba(kind);
        }
    } else if kind == 1 {
        if 3 <= y && y < 5 && ((4 <= x && x < 6) || (10 <= x && x < 12)) {
            return eye_rgba(kind);
        }
    } else {
        if x == 7 && y == 5 {
            return (10, 10, 10, 255);
        } else if 6 <= x && x < 9 && 4 <= y && y < 7 {
            return eye_rgba(kind);
        } else if (y == 14 && x % 4 == 0) || (y == 15 && (x % 4 == 0 || x % 4 == 1)) {
            return (0, 0, 0, 0);
        }
    }
    if silhouette_contains(x, y) {
        body_rgba(kind)
    } else {
        (0, 0, 0, 0)
    }
}

/// The silhouette is centred on the vertical line `x = 7.5`: a pixel
/// and its mirror image `15 - x` are both inside or both outside.
pub proof fn lemma_silhouette_mirror(x: int, y: int)
    ensures
        in_silhouette(x, y) == in_silhouette(15 - x, y),
{
    let a = 2 * x - 15;
    assert((2 * (15 - x) - 15) * (2 * (15 - x) - 15) == a * a) by (nonlinear_arith)
        requires
            a == 2 * x - 15,
    ;
}

/// The wolf and the frog are left-right symmetric: every pixel has the
/// colour of its mirror image across the sprite's centre line.
pub proof fn lemma_sprite_mirror_symmetric(kind: u8, x: int, y: int)
    requires
        kind < 2,
        0 <= x < 16,
        0 <= y < 16,
    ensures
        sprite_pixel(kind, x, y) == sprite_pixel(kind, 15 - x, y),
{
    lemma_silhouette_mirror(x, y);
}

/// The RGBA bytes of the sprite of `kind`, row by row from the top:
/// pixel `(x, y)` occupies bytes `4 * (16 * y + x) ..` in R, G, B, A order.
pub fn monster_sprite_pixels(kind: u8) -> (data: Vec<u8>)
    ensures
        data@.len() == 4 * SPRITE_SIZE * SPRITE_SIZE,
        forall|p: int, c: int|
            0 <= p < 256 && 0 <= c < 4 ==> #[trigger] data@[4 * p + c] == channel(sprite_pixel(kind, p % 16, p / 16), c),
{
    let mut data: Vec<u8> = Vec::new();
    let mut p: usize = 0;
    while p < 256
        invariant
            p <= 256,
            data@.len() == 4 * p,
            forall|q: int, c: int|
                0 <= q < p && 0 <= c < 4 ==> #[trigger] data@[4 * q + c] == channel(sprite_pixel(kind, q % 16, q / 16), c),
        decreases 256 - p,
    {
        let x = (p % 16) as i32;
        let y = (p / 16) as i32;
        let px = monster_sprite_pixel(kind, x, y);
        let ghost before = data@;
        data.push(px.0);
        data.push(px.1);
        data.push(px.2);
        data.push(px.3);
        assert forall|q: int, c: int|
            0 <= q < p + 1 && 0 <= c < 4 implies #[trigger] data@[4 * q + c] == channel(sprite_pixel(kind, q % 16, q / 16), c) by {
            if q < p {
                assert(data@[4 * q + c] == before[4 * q + c]);
            } else {
                assert(q == p);
            }
        }
        p = p + 1;
    }
    data
}

} // verus!
