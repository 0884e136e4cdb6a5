use my_bevy_game::history::{worst_sample_count, SampleHistory};
use my_bevy_game::input::{key_axis, move_axes, orbit_axis, teleport_step};
use my_bevy_game::monsters::{
    next_monster_kind, salt_stream, seed_if_unset, sprite_material_index, SPAWN_SEED,
};
use my_bevy_game::slots::{find_slot, find_slot_or_first, slot_index};
use my_bevy_game::settings::{adjust_render_distance, world_scale_factor};
use my_bevy_game::sprite::{monster_sprite_pixel, monster_sprite_pixels, SPRITE_SIZE};
use my_bevy_game::viewport::{split_screen_viewport, ViewportRect};

const WOLF: [&str; 16] = [
    "...BBB....BBB...",
    "...BB......BB...",
    "...B.BBBBBB.B...",
    "....BBBBBBBB....",
    "...BBEBBBBEBB...",
    "...BBBBBBBBBB...",
    "....BBBBBBBB....",
    ".....BBBBBB.....",
    "......BBBB......",
    "....BBBBBBBB....",
    "...BBBBBBBBBB...",
    "...BBBBBBBBBB...",
    "...BBBBBBBBBB...",
    "...BBBBBBBBBB...",
    "....BBBBBBBB....",
    "......BBBB......",
];

const FROG: [&str; 16] = [
    "................",
    "................",
    ".....BBBBBB.....",
    "....EEBBBBEE....",
    "...BEEBBBBEEB...",
    "...BBBBBBBBBB...",
    "....BBBBBBBB....",
    ".....BBBBBB.....",
    "......BBBB......",
    "....BBBBBBBB....",
    "...BBBBBBBBBB...",
    "...BBBBBBBBBB...",
    "...BBBBBBBBBB...",
    "...BBBBBBBBBB...",
    "....BBBBBBBB....",
    "......BBBB......",
];

const GHOST: [&str; 16] = [
    "................",
    "................",
    ".....BBBBBB.....",
    "....BBBBBBBB....",
    "...BBBEEEBBBB...",
    "...BBBEPEBBBB...",
    "....BBEEEBBB....",
    ".....BBBBBB.....",
    "......BBBB......",
    "....BBBBBBBB....",
    "...BBBBBBBBBB...",
    "...BBBBBBBBBB...",
    "...BBBBBBBBBB...",
    "...BBBBBBBBBB...",
    ".....BBB.BBB....",
    "......BB........",
];

fn check_sprite(kind: u8, rows: &[&str; 16], body: [u8; 4], eye: [u8; 4]) {
    let data = monster_sprite_pixels(kind);
    assert_eq!(data.len(), 4 * SPRITE_SIZE * SPRITE_SIZE);
    for (y, row) in rows.iter().enumerate() {
        for (x, ch) in row.chars().enumerate() {
            let i = (y * 16 + x) * 4;
            let px = [data[i], data[i + 1], data[i + 2], data[i + 3]];
            let want = match ch {
                '.' => [0, 0, 0, 0],
                'B' => body,
                'E' => eye,
                _ => [10, 10, 10, 255],
            };
            assert_eq!(px, want, "kind {} pixel ({}, {})", kind, x, y);
        }
    }
}

#[test]
fn wolf_sprite() {
    check_sprite(0, &WOLF, [200, 60, 50, 255], [255, 255, 255, 255]);
}

#[test]
fn frog_sprite() {
    check_sprite(1, &FROG, [60, 180, 80, 255], [10, 10, 10, 255]);
}

#[test]
fn ghost_sprite_for_every_other_kind() {
    check_sprite(2, &GHOST, [90, 140, 220, 255], [255, 240, 200, 255]);
    check_sprite(7, &GHOST, [90, 140, 220, 255], [255, 240, 200, 255]);
    assert_eq!(monster_sprite_pixel(2, 7, 5), (10, 10, 10, 255));
}

#[test]
fn monster_streams() {
    let mut s: u32 = 0;
    seed_if_unset(&mut s, SPAWN_SEED);
    assert_eq!(s, 0xCAFE_BABE);
    seed_if_unset(&mut s, 5);
    assert_eq!(s, 0xCAFE_BABE);
    assert_eq!(next_monster_kind(&mut s), 2);
    assert_eq!(s, 3_281_691_995);
    salt_stream(&mut s, 0xFFFF_FFFF);
    assert_eq!(s, !3_281_691_995u32);
    for _ in 0..100 {
        assert!(next_monster_kind(&mut s) < 3);
    }
    assert_eq!(sprite_material_index(1, 3), 1);
    assert_eq!(sprite_material_index(9, 3), 2);
}

#[test]
fn render_distance_clamps() {
    assert_eq!(adjust_render_distance(4, 1), 5);
    assert_eq!(adjust_render_distance(1, -1), 1);
    assert_eq!(adjust_render_distance(16, 1), 16);
    assert_eq!(adjust_render_distance(-50, 3), 1);
}

#[test]
fn world_scale_label() {
    assert_eq!(world_scale_factor(32), 1);
    assert_eq!(world_scale_factor(10), 1);
    assert_eq!(world_scale_factor(-64), 1);
    assert_eq!(world_scale_factor(320), 10);
    assert_eq!(world_scale_factor(100), 3);
}

#[test]
fn split_screen_halves() {
    assert_eq!(
        split_screen_viewport(0, 1280, 720),
        ViewportRect { x: 0, y: 0, width: 640, height: 720 }
    );
    assert_eq!(
        split_screen_viewport(1, 1281, 720),
        ViewportRect { x: 640, y: 0, width: 640, height: 720 }
    );
}

#[test]
fn history_keeps_most_recent() {
    let mut h: SampleHistory<u32> = SampleHistory::new(3);
    for v in 1..=5 {
        h.push(v, 3);
    }
    assert_eq!(h.len(), 3);
    assert_eq!(h.samples().iter().copied().collect::<Vec<_>>(), vec![3, 4, 5]);
    h.push(6, 1);
    assert_eq!(h.samples().iter().copied().collect::<Vec<_>>(), vec![6]);
}

#[test]
fn one_percent_low_count() {
    assert_eq!(worst_sample_count(0), 1);
    assert_eq!(worst_sample_count(1), 1);
    assert_eq!(worst_sample_count(100), 1);
    assert_eq!(worst_sample_count(101), 2);
    assert_eq!(worst_sample_count(120), 2);
}

#[test]
fn key_axes() {
    assert_eq!(key_axis(false, true), 1);
    assert_eq!(key_axis(true, false), -1);
    assert_eq!(key_axis(true, true), 0);
    assert_eq!(move_axes(true, false, false, true), Some((1, 1)));
    assert_eq!(move_axes(true, true, true, true), None);
    assert_eq!(move_axes(false, true, true, false), Some((-1, -1)));
    assert_eq!(orbit_axis(true, false), Some(-1));
    assert_eq!(orbit_axis(false, false), None);
    assert_eq!(teleport_step(true, false), Some(3));
    assert_eq!(teleport_step(true, true), Some(-3));
    assert_eq!(teleport_step(false, true), None);
}

#[test]
fn slot_routing() {
    assert_eq!(slot_index(0), 0);
    assert_eq!(slot_index(1), 1);
    assert_eq!(slot_index(200), 1);
    let slots = vec![1u8, 0, 1];
    assert_eq!(find_slot(&slots, 1), Some(0));
    assert_eq!(find_slot(&slots, 0), Some(1));
    assert_eq!(find_slot(&slots, 5), None);
    assert_eq!(find_slot_or_first(&slots, 5), Some(0));
    assert_eq!(find_slot_or_first(&vec![], 0), None);
    assert_eq!(find_slot_or_first(&vec![3, 3, 2], 2), Some(2));
}
