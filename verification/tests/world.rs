use my_bevy_game::biome::Biome;
use my_bevy_game::chunks::{
    chunk_cell_range, chunk_overlaps_world, contains_coord, plan_chunk_updates, wanted_chunks,
    CellRange, ChunkCoord, CHUNK_SIZE,
};
use my_bevy_game::noise::{cell_jitter_bits, grain_hash_bits, hash2_bits, lattice_key};
use my_bevy_game::prng::{lcg_advance, pcg_next, pcg_permute, pcg_step};

fn c(x: i32, z: i32) -> ChunkCoord {
    ChunkCoord { x, z }
}

#[test]
fn biome_bands() {
    assert_eq!(Biome::from_height(-5), Biome::Water);
    assert_eq!(Biome::from_height(0), Biome::Water);
    assert_eq!(Biome::from_height(1), Biome::Sand);
    assert_eq!(Biome::from_height(2), Biome::Grass);
    assert_eq!(Biome::from_height(4), Biome::Grass);
    assert_eq!(Biome::from_height(5), Biome::Rock);
    assert_eq!(Biome::from_height(6), Biome::Rock);
    assert_eq!(Biome::from_height(7), Biome::Snow);
    assert_eq!(Biome::from_height(i32::MAX), Biome::Snow);
}

#[test]
fn biome_rises_with_height() {
    let order = [Biome::Water, Biome::Sand, Biome::Grass, Biome::Rock, Biome::Snow];
    let rank = |b: Biome| order.iter().position(|o| *o == b).unwrap();
    for h in -3..12 {
        assert!(rank(Biome::from_height(h)) <= rank(Biome::from_height(h + 1)));
    }
}

#[test]
fn pcg_known_values() {
    assert_eq!(lcg_advance(0), 2_891_336_453);
    assert_eq!(pcg_permute(2_891_336_453), 129_708_002);
    assert_eq!(pcg_next(0), 129_708_002);
    let mut s: u32 = 0xCAFE_BABE;
    assert_eq!(pcg_step(&mut s), 3_524_364_497);
    assert_eq!(s, 3_281_691_995);
}

#[test]
fn lattice_hashes_known_values() {
    assert_eq!(hash2_bits(0, 0), 0);
    assert_eq!(hash2_bits(1, 2), 3_792_824_159);
    assert_eq!(hash2_bits(-3, 7), 133_181_471);
    assert_eq!(lattice_key(1, 1), 88_192_194);
    assert_eq!(lattice_key(-1, 2), 4_191_652_509);
    assert_eq!(cell_jitter_bits(0, 0), 0);
    assert_eq!(cell_jitter_bits(5, -9), 4_064_401_466);
    assert_eq!(grain_hash_bits(0, 0xA1), 2_585_863_847);
    assert_eq!(grain_hash_bits(3, 0xA1), 3_202_201_328);
    assert_eq!(grain_hash_bits(7, 1), 2_046_467_369);
}

#[test]
fn wanted_chunks_at_origin_clip_to_world() {
    // World of radius 32 cells spans chunks -1 and 0 on each axis.
    let v = wanted_chunks(c(0, 0), 1, 32);
    assert_eq!(v, vec![c(-1, -1), c(-1, 0), c(0, -1), c(0, 0)]);
}

#[test]
fn wanted_chunks_render_distance_at_least_one() {
    let zero = wanted_chunks(c(0, 0), 0, 1000);
    let one = wanted_chunks(c(0, 0), 1, 1000);
    assert_eq!(zero, one);
    assert_eq!(one.len(), 9);
}

#[test]
fn wanted_chunks_full_square_in_big_world() {
    let v = wanted_chunks(c(2, -3), 4, 100_000);
    assert_eq!(v.len(), 81);
    for coord in &v {
        assert!((coord.x - 2).abs() <= 4 && (coord.z + 3).abs() <= 4);
    }
}

#[test]
fn wanted_chunks_far_outside_world_is_empty() {
    assert!(wanted_chunks(c(100, 100), 4, 32).is_empty());
}

#[test]
fn chunk_overlap_edges() {
    assert!(chunk_overlaps_world(c(0, 0), 32));
    assert!(chunk_overlaps_world(c(-1, -1), 32));
    assert!(!chunk_overlaps_world(c(1, 0), 32));
    assert!(!chunk_overlaps_world(c(0, -2), 32));
    assert!(!chunk_overlaps_world(c(0, 0), 0));
}

#[test]
fn chunk_plan_spawns_missing_and_despawns_stale() {
    let wanted = vec![c(0, 0), c(0, 1), c(1, 0)];
    let loaded = vec![c(5, 5), c(0, 1), c(9, 9)];
    let plan = plan_chunk_updates(&wanted, &loaded);
    assert_eq!(plan.despawn, vec![0, 2]);
    assert_eq!(plan.spawn, vec![c(0, 0), c(1, 0)]);
    // Carrying the plan out leaves exactly the wanted chunks.
    let mut after: Vec<ChunkCoord> = loaded
        .iter()
        .enumerate()
        .filter(|(i, _)| !plan.despawn.contains(i))
        .map(|(_, c)| *c)
        .collect();
    after.extend(plan.spawn.iter().copied());
    after.sort_by_key(|c| (c.x, c.z));
    let mut w = wanted.clone();
    w.sort_by_key(|c| (c.x, c.z));
    assert_eq!(after, w);
}

#[test]
fn chunk_plan_nothing_to_do() {
    let wanted = vec![c(0, 0)];
    let plan = plan_chunk_updates(&wanted, &wanted);
    assert!(plan.despawn.is_empty());
    assert!(plan.spawn.is_empty());
    assert!(contains_coord(&wanted, c(0, 0)));
    assert!(!contains_coord(&wanted, c(0, 1)));
}

#[test]
fn chunk_cells_clipped_to_world() {
    assert_eq!(CHUNK_SIZE, 32);
    assert_eq!(
        chunk_cell_range(c(0, -1), 20),
        CellRange { min_x: 0, max_x: 20, min_z: -20, max_z: 0 }
    );
    assert_eq!(
        chunk_cell_range(c(1, 0), 100),
        CellRange { min_x: 32, max_x: 64, min_z: 0, max_z: 32 }
    );
}
