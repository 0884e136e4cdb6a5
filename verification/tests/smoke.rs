//! Toolchain and linking smoke tests.

#[allow(unused_imports)]
use my_bevy_game::biome::Biome;

#[test]
fn one_plus_one_is_two() {
    assert_eq!(1 + 1, 2);
}

#[test]
fn library_links() {
    // Compiling this test exercises that the library builds and links.
    let _: () = ();
}
