//! Random choices for roaming monsters: the lazily seeded per-system
//! PCG streams and the sprite kind of a freshly spawned monster.

use vstd::prelude::*;
use crate::prng::{pcg_step, lcg_advanced, pcg_drawn};

verus! {

/// Seed of the spawning stream.
pub const SPAWN_SEED: u32 = 0xCAFE_BABE;

/// Seed of the wandering stream.
pub const WANDER_SEED: u32 = 0xDEAD_BEEF;

/// Number of monster kinds (sprites).
pub const MONSTER_KINDS: u8 = 3;

/// A stream state of 0 means "not yet seeded": give it `seed`.
pub fn seed_if_unset(state: &mut u32, seed: u32)
    ensures
        *final(state) == if *old(state) == 0 { seed } else { *old(state) },
{
    if *state == 0 {
        *state = seed;
    }
}

/// Mixes `salt` (e.g. the bits of the current time) into the stream so
/// successive spawn requests differ.
pub fn salt_stream(state: &mut u32, salt: u32)
    ensures
        *final(state) == *old(state) ^ salt,
{
    *state = *state ^ salt;
}

/// Draws the sprite kind of a new monster: the next output of the
/// stream modulo the number of kinds.
pub fn next_monster_kind(state: &mut u32) -> (k: u8)
    ensures
        *final(state) == lcg_advanced(*old(state)),
        k == pcg_drawn(*old(state)) % (MONSTER_KINDS as u32),
        k < MONSTER_KINDS,
{
    let r = pcg_step(state);
    (r % 3) as u8
}

/// Which of `materials` sprite materials a monster of `kind` uses:
/// its own, or the last one for an out-of-range kind.
pub fn sprite_material_index(kind: u8, materials: usize) -> (i: usize)
    requires
        materials >= 1,
    ensures
        i == if (kind as usize) < materials - 1 { kind as usize } else { (materials - 1) as usize },
        i < materials,
{
    let k = kind as usize;
    if k < materials - 1 {
        k
    } else {
        materials - 1
    }
}

} // verus!
