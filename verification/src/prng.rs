//! Integer mixing used by the game's deterministic pseudo-random
//! streams: a PCG-style generator (linear-congruential step followed by
//! an output permutation) and the lattice hashes behind the terrain,
//! grain and jitter noise.

use vstd::prelude::*;
use vstd::arithmetic::div_mod::{lemma_add_mod_noop, lemma_mod_bound};
use vstd::arithmetic::power2::{pow2, lemma2_to64};
use vstd::bits::lemma_u32_shr_is_div;

verus! {

/// The number of distinct `u32` values.
pub open spec fn u32_modulus() -> int {
    0x1_0000_0000
}

/// `x` reduced into the `u32` range, as two's-complement arithmetic wraps.
pub open spec fn wrap32(x: int) -> u32 {
    (x % u32_modulus()) as u32
}

/// The linear-congruential step of the generator.
pub open spec fn lcg_advanced(s: u32) -> u32 {
    wrap32(s * 747_796_405 + 2_891_336_453)
}

/// The output permutation of the generator: a data-dependent shift
/// (by 4 to 19 bits), a multiply and a final xor-shift.
pub open spec fn pcg_permuted(s: u32) -> u32 {
    let shift = ((s >> 28u32) + 4) as u32;
    let word = wrap32(((s >> shift) ^ s) * 277_803_737);
    (word >> 22u32) ^ word
}

/// One draw: the output of the generator whose state was `s`.
pub open spec fn pcg_drawn(s: u32) -> u32 {
    pcg_permuted(lcg_advanced(s))
}

/// The linear-congruential step can be undone: subtracting the
/// increment and multiplying by the inverse of the (odd) multiplier
/// modulo 2^32 gives back the previous state.
pub proof fn lemma_lcg_undo(s: u32)
    ensures
        wrap32((lcg_advanced(s) + (u32_modulus() - 2_891_336_453)) * 3_425_435_293) == s,
{
    assert((((s * 747_796_405 + 2_891_336_453) % 0x1_0000_0000 + 1_403_630_843) * 3_425_435_293)
        % 0x1_0000_0000 == s) by (bit_vector);
    lemma_mod_bound(s * 747_796_405 + 2_891_336_453, u32_modulus());
}

/// Distinct states never advance to the same state, so no two streams
/// merge: the step is a permutation of the `u32` states.
pub proof fn lemma_lcg_injective(a: u32, b: u32)
    requires
        lcg_advanced(a) == lcg_advanced(b),
    ensures
        a == b,
{
    lemma_lcg_undo(a);
    lemma_lcg_undo(b);
}

/// The output permutation in terms of division: the top four bits of
/// the state, `s / 2^28`, choose a shift of 4 to 19 bits for every
/// state, the shifted state is xored with the state and multiplied, and
/// the product is xored with its top ten bits.
pub proof fn lemma_pcg_permuted_by_division(s: u32)
    ensures
        4 <= s as nat / pow2(28) + 4 <= 19,
        ({
            let shift: nat = s as nat / pow2(28) + 4;
            let word = wrap32(((s as nat / pow2(shift)) as u32 ^ s) * 277_803_737);
            pcg_permuted(s) == ((word as nat / pow2(22)) as u32) ^ word
        }),
{
    lemma2_to64();
    assert(s >> 28u32 <= 15) by (bit_vector);
    lemma_u32_shr_is_div(s, 28);
    let shift = ((s >> 28u32) + 4) as u32;
    lemma_u32_shr_is_div(s, shift);
    let word = wrap32(((s >> shift) ^ s) * 277_803_737);
    lemma_u32_shr_is_div(word, 22);
}

/// `wrapping_mul` is multiplication reduced modulo 2^32.
pub proof fn lemma_wrapping_mul(x: u32, y: u32)
    ensures
        vstd::wrapping::u32_specs::wrapping_mul(x, y) == wrap32(x * y),
{
}

/// `wrapping_add` of two reduced terms is the reduction of their exact sum.
pub proof fn lemma_wrapping_add_reduced(a: int, b: int)
    ensures
        vstd::wrapping::u32_specs::wrapping_add(wrap32(a), wrap32(b)) == wrap32(a + b),
{
    let m = u32_modulus();
    lemma_mod_bound(a, m);
    lemma_mod_bound(b, m);
    lemma_add_mod_noop(a, b, m);
    let s = a % m + b % m;
    if s >= m {
        assert((s - m) % m == s % m) by {
            vstd::arithmetic::div_mod::lemma_mod_sub_multiples_vanish(s, m);
        }
        vstd::arithmetic::div_mod::lemma_small_mod((s - m) as nat, m as nat);
    } else {
        vstd::arithmetic::div_mod::lemma_small_mod(s as nat, m as nat);
    }
}

/// A `u32` is its own reduction.
pub proof fn lemma_wrap32_id(x: u32)
    ensures
        wrap32(x as int) == x,
{
    vstd::arithmetic::div_mod::lemma_small_mod(x as nat, u32_modulus() as nat);
}

/// The linear-congruential step.
pub fn lcg_advance(s: u32) -> (r: u32)
    ensures
        r == lcg_advanced(s),
{
    proof {
        lemma_wrapping_mul(s, 747_796_405);
        lemma_wrap32_id(2_891_336_453);
        lemma_wrapping_add_reduced(s * 747_796_405, 2_891_336_453);
    }
    s.wrapping_mul(747_796_405).wrapping_add(2_891_336_453)
}

/// The output permutation applied to a freshly advanced state.
pub fn pcg_permute(s: u32) -> (r: u32)
    ensures
        r == pcg_permuted(s),
{
    assert(s >> 28u32 <= 15) by (bit_vector);
    let shift: u32 = (s >> 28) + 4;
    let mixed: u32 = (s >> shift) ^ s;
    proof {
        lemma_wrapping_mul(mixed, 277_803_737);
    }
    let word: u32 = mixed.wrapping_mul(277_803_737);
    (word >> 22) ^ word
}

/// Advances `state` by one step and returns the permuted output of the
/// new state.
pub fn pcg_step(state: &mut u32) -> (r: u32)
    ensures
        *final(state) == lcg_advanced(*old(state)),
        r == pcg_permuted(*final(state)),
        r == pcg_drawn(*old(state)),
{
    *state = lcg_advance(*state);
    pcg_permute(*state)
}

/// The output of one step from `state`, without keeping the advanced
/// state (the network simulation stores the output as its next state).
pub fn pcg_next(state: u32) -> (r: u32)
    ensures
        r == pcg_drawn(state),
{
    let mut s = state;
    pcg_step(&mut s)
}

} // verus!
