//! Integer lattice hashes behind the procedural noise. Each maps
//! integer lattice coordinates to a well-mixed 32-bit word; the
//! renderer and terrain sampler scale that word into `[0, 1]`.

use vstd::prelude::*;
use crate::prng::{wrap32, u32_modulus, lemma_wrapping_mul, lemma_wrapping_add_reduced};
use vstd::arithmetic::div_mod::lemma_mod_multiples_vanish;

verus! {

/// The final avalanche shared by the terrain and jitter hashes.
pub open spec fn avalanche(h0: u32) -> u32 {
    let h1 = wrap32((h0 ^ (h0 >> 13u32)) * 1_274_126_177);
    h1 ^ (h1 >> 16u32)
}

/// Terrain value-noise hash of the cell `(x, z)`.
pub open spec fn hash2_word(x: i32, z: i32) -> u32 {
    let h0 = wrap32((x as u32) * 374_761_393 + (z as u32) * 668_265_263);
    let h1 = wrap32((h0 ^ (h0 >> 13u32)) * 1_274_126_177);
    h1 ^ (h1 >> 16u32)
}

/// The spatial key of lattice point `(x, z)` shared by the colour
/// jitter and the grain texture.
pub open spec fn lattice_word(x: i32, z: i32) -> u32 {
    wrap32((x as u32) * 73_856_093) ^ wrap32((z as u32) * 19_349_663)
}

/// Per-cell colour jitter hash.
pub open spec fn cell_jitter_word(x: i32, z: i32) -> u32 {
    let h0 = lattice_word(x, z);
    let h1 = wrap32((h0 ^ (h0 >> 13u32)) * 1_274_126_177);
    h1 ^ (h1 >> 16u32)
}

/// Salted hash used by the plank/grain texture.
pub open spec fn grain_word(x: u32, salt: u32) -> u32 {
    let h0 = wrap32(x * 2_654_435_761 + salt * 40_503);
    let h1 = h0 ^ (h0 >> 13u32);
    let h2 = wrap32(h1 * 0x5bd1_e995);
    h2 ^ (h2 >> 15u32)
}

/// A signed coordinate taken as the bits of a `u32` is the coordinate
/// plus 2^32 when it is negative.
pub proof fn lemma_i32_as_u32(v: i32)
    ensures
        (v as u32) as int == if v < 0 { v + u32_modulus() } else { v as int },
{
    assert(v < 0 ==> (v as u32) as i64 == v as i64 + 0x1_0000_0000i64) by (bit_vector);
    assert(v >= 0 ==> (v as u32) as i64 == v as i64) by (bit_vector);
}

/// Weighting two signed coordinates and reducing modulo 2^32 gives the
/// same word whether the coordinates are taken as signed integers or as
/// their two's-complement `u32` bits.
proof fn lemma_weighted_sum_bits(x: i32, z: i32, a: int, b: int)
    ensures
        wrap32((x as u32) * a + (z as u32) * b) == wrap32(x * a + z * b),
{
    lemma_i32_as_u32(x);
    lemma_i32_as_u32(z);
    let m = u32_modulus();
    let k: int = (if x < 0 { a } else { 0 }) + (if z < 0 { b } else { 0 });
    assert((x as u32) * a + (z as u32) * b == m * k + (x * a + z * b)) by (nonlinear_arith)
        requires
            (x as u32) as int == if x < 0 { x + m } else { x as int },
            (z as u32) as int == if z < 0 { z + m } else { z as int },
            k == (if x < 0 { a } else { 0 }) + (if z < 0 { b } else { 0 }),
    ;
    lemma_mod_multiples_vanish(k, x * a + z * b, m);
}

/// The terrain hash of cell `(x, z)` mixes `x * 374761393 + z * 668265263`
/// computed on the signed coordinates and reduced modulo 2^32, so cells
/// on either side of an axis hash independently.
pub proof fn lemma_hash2_signed(x: i32, z: i32)
    ensures
        hash2_word(x, z) == avalanche(wrap32(x * 374_761_393 + z * 668_265_263)),
{
    lemma_weighted_sum_bits(x, z, 374_761_393, 668_265_263);
}

/// The lattice key of `(x, z)` is `x * 73856093` xor `z * 19349663`, each
/// product taken on the signed coordinate and reduced modulo 2^32.
pub proof fn lemma_lattice_signed(x: i32, z: i32)
    ensures
        lattice_word(x, z) == wrap32(x * 73_856_093) ^ wrap32(z * 19_349_663),
{
    lemma_weighted_sum_bits(x, 0, 73_856_093, 0);
    lemma_weighted_sum_bits(0, z, 0, 19_349_663);
}

/// Hash of terrain cell `(x, z)`.
pub fn hash2_bits(x: i32, z: i32) -> (r: u32)
    ensures
        r == hash2_word(x, z),
        r == avalanche(wrap32(x * 374_761_393 + z * 668_265_263)),
{
    proof {
        lemma_hash2_signed(x, z);
    }
    let xu = x as u32;
    let zu = z as u32;
    proof {
        lemma_wrapping_mul(xu, 374_761_393);
        lemma_wrapping_mul(zu, 668_265_263);
        lemma_wrapping_add_reduced(xu * 374_761_393, zu * 668_265_263);
    }
    let mut h: u32 = xu.wrapping_mul(374_761_393).wrapping_add(zu.wrapping_mul(668_265_263));
    let mixed: u32 = h ^ (h >> 13);
    proof {
        lemma_wrapping_mul(mixed, 1_274_126_177);
    }
    h = mixed.wrapping_mul(1_274_126_177);
    h ^= h >> 16;
    h
}

/// Spatial key of lattice point `(x, z)`.
pub fn lattice_key(x: i32, z: i32) -> (r: u32)
    ensures
        r == lattice_word(x, z),
        r == wrap32(x * 73_856_093) ^ wrap32(z * 19_349_663),
{
    proof {
        lemma_lattice_signed(x, z);
    }
    let xu = x as u32;
    let zu = z as u32;
    proof {
        lemma_wrapping_mul(xu, 73_856_093);
        lemma_wrapping_mul(zu, 19_349_663);
    }
    xu.wrapping_mul(73_856_093) ^ zu.wrapping_mul(19_349_663)
}

/// Colour-jitter hash of cell `(x, z)`.
pub fn cell_jitter_bits(x: i32, z: i32) -> (r: u32)
    ensures
        r == cell_jitter_word(x, z),
{
    let mut h: u32 = lattice_key(x, z);
    let mixed: u32 = h ^ (h >> 13);
    proof {
        lemma_wrapping_mul(mixed, 1_274_126_177);
    }
    h = mixed.wrapping_mul(1_274_126_177);
    h ^= h >> 16;
    h
}

/// Salted grain hash of `x`.
pub fn grain_hash_bits(x: u32, salt: u32) -> (r: u32)
    ensures
        r == grain_word(x, salt),
{
    proof {
        lemma_wrapping_mul(x, 2_654_435_761);
        lemma_wrapping_mul(salt, 40_503);
        lemma_wrapping_add_reduced(x * 2_654_435_761, salt * 40_503);
    }
    let mut h: u32 = x.wrapping_mul(2_654_435_761).wrapping_add(salt.wrapping_mul(40_503));
    h ^= h >> 13;
    proof {
        lemma_wrapping_mul(h, 0x5bd1_e995);
    }
    h = h.wrapping_mul(0x5bd1_e995);
    h ^= h >> 15;
    h
}

} // verus!
