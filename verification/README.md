# my_bevy_game

A small 3D exploration game on the Bevy engine (plus the little
"Asteroid Dodge" game), split into a verified library and an executable.

- `src/` — the library, verified with Verus. It holds the game's integer
  logic with contracts: terrain chunk streaming (`chunks`), the simulated
  network delay queues (`net_sim`), the replication outbox (`replication`),
  the PCG generator and lattice hashes behind all randomness and noise
  (`prng`, `noise`), monster sprites and random choices (`sprite`,
  `monsters`), biomes, split-screen layout, the frame-time history, input
  axes, player-slot routing and the settings panel's integer rules.
- `app/` — the executable: engine plumbing (systems, plugins, rendering,
  UI), serialisation and all floating-point game logic (movement,
  collisions, camera smoothing, terrain heights), calling into the library.
- `tests/` — tests of the library on concrete values.
