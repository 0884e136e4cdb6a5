use vstd::prelude::*;

verus! {

/// Surface-material classification, derived from elevation.
#[derive(Clone, Copy, Debug, PartialEq, Eq, Structural)]
pub enum Biome {
    Water,
    Sand,
    Grass,
    Rock,
    Snow,
}

/// The biome of a cell at integer height `h`: water at or below 0,
/// sand at 1, grass up to 4, rock up to 6, snow above.
pub open spec fn biome_of_height(h: int) -> Biome {
    if h <= 0 {
        Biome::Water
    } else if h <= 1 {
        Biome::Sand
    } else if h <= 4 {
        Biome::Grass
    } else if h <= 6 {
        Biome::Rock
    } else {
        Biome::Snow
    }
}

impl Biome {
    /// Classifies an integer height into its biome band.
    pub fn from_height(h: i32) -> (b: Biome)
        ensures
            b == biome_of_height(h as int),
    {
        if h <= 0 {
            Biome::Water
        } else if h <= 1 {
            Biome::Sand
        } else if h <= 4 {
            Biome::Grass
        } else if h <= 6 {
            Biome::Rock
        } else {
            Biome::Snow
        }
    }
}

/// Position of a biome in the elevation order, water lowest.
pub open spec fn elevation_rank(b: Biome) -> int {
    match b {
        Biome::Water => 0,
        Biome::Sand => 1,
        Biome::Grass => 2,
        Biome::Rock => 3,
        Biome::Snow => 4,
    }
}

/// The band of heights that each biome covers: water up to 0, sand at
/// exactly 1, grass from 2 to 4, rock at 5 and 6, snow from 7 up.
pub proof fn lemma_biome_bands(h: int)
    ensures
        (biome_of_height(h) == Biome::Water) <==> h <= 0,
        (biome_of_height(h) == Biome::Sand) <==> h == 1,
        (biome_of_height(h) == Biome::Grass) <==> 2 <= h <= 4,
        (biome_of_height(h) == Biome::Rock) <==> 5 <= h <= 6,
        (biome_of_height(h) == Biome::Snow) <==> h >= 7,
{
}

/// Biomes are elevation bands: a higher cell never gets a biome that
/// lies lower in the order water, sand, grass, rock, snow.
pub proof fn lemma_biome_monotone(h1: int, h2: int)
    requires
        h1 <= h2,
    ensures
        elevation_rank(biome_of_height(h1)) <= elevation_rank(biome_of_height(h2)),
{
}

} // verus!
