//! Terrain chunk streaming: which `CHUNK_SIZE`² chunks around the
//! camera should exist, and which spawns/despawns bring the loaded set
//! to exactly that.

use vstd::prelude::*;

verus! {

/// Cells along each side of a terrain chunk.
pub const CHUNK_SIZE: i32 = 32;

/// Largest chunk index magnitude whose cell range still fits in `i32`.
pub const MAX_CHUNK_INDEX: i32 = 0x3ff_fffe;

/// Grid index of a chunk: chunk `(x, z)` covers cells
/// `[x * CHUNK_SIZE, (x + 1) * CHUNK_SIZE)` along X, likewise along Z.
#[derive(Clone, Copy, Debug, PartialEq, Eq, Hash, Structural)]
pub struct ChunkCoord {
    pub x: i32,
    pub z: i32,
}

/// Half-open cell range `[min, max)` along X and Z.
#[derive(Clone, Copy, Debug, PartialEq, Eq, Structural)]
pub struct CellRange {
    pub min_x: i32,
    pub max_x: i32,
    pub min_z: i32,
    pub max_z: i32,
}

/// What has to change so that the loaded chunks are the wanted ones.
pub struct ChunkPlan {
    /// Positions (in the list of loaded chunks) of chunks to despawn.
    pub despawn: Vec<usize>,
    /// Coordinates of chunks to spawn.
    pub spawn: Vec<ChunkCoord>,
}

/// A chunk index whose cells can be computed without overflow.
pub open spec fn index_in_range(i: int) -> bool {
    -MAX_CHUNK_INDEX <= i <= MAX_CHUNK_INDEX
}

/// The render distance actually used: at least one chunk.
pub open spec fn effective_distance(render_distance: i32) -> int {
    if render_distance < 1 { 1 } else { render_distance as int }
}

/// Whether any cell of chunk `c` lies inside the world square
/// `[-radius, radius)` on both axes.
pub open spec fn overlaps_world(c: ChunkCoord, radius: int) -> bool {
    let min_x = c.x * CHUNK_SIZE;
    let min_z = c.z * CHUNK_SIZE;
    !(min_x + CHUNK_SIZE <= -radius || min_x >= radius || min_z + CHUNK_SIZE <= -radius
        || min_z >= radius)
}

/// Whether cell `(x, z)` belongs to chunk `c`.
pub open spec fn chunk_contains_cell(c: ChunkCoord, x: int, z: int) -> bool {
    c.x * CHUNK_SIZE <= x < (c.x + 1) * CHUNK_SIZE && c.z * CHUNK_SIZE <= z < (c.z + 1) * CHUNK_SIZE
}

/// Whether cell `(x, z)` lies in the world square `[-radius, radius)`.
pub open spec fn world_contains_cell(radius: int, x: int, z: int) -> bool {
    -radius <= x < radius && -radius <= z < radius
}

/// Whether `c` lies in the square of half-width `r` chunks around `cam`.
pub open spec fn in_view_square(c: ChunkCoord, cam: ChunkCoord, r: int) -> bool {
    cam.x - r <= c.x <= cam.x + r && cam.z - r <= c.z <= cam.z + r
}

/// The chunks that should be loaded for a camera in chunk `cam`.
pub open spec fn is_wanted(c: ChunkCoord, cam: ChunkCoord, render_distance: i32, radius: i32) -> bool {
    in_view_square(c, cam, effective_distance(render_distance)) && overlaps_world(c, radius as int)
}

/// The inputs on which the chunk computations stay inside `i32`.
pub open spec fn view_in_range(cam: ChunkCoord, render_distance: i32, radius: i32) -> bool {
    let r = effective_distance(render_distance);
    &&& index_in_range(cam.x - r)
    &&& index_in_range(cam.x + r)
    &&& index_in_range(cam.z - r)
    &&& index_in_range(cam.z + r)
    &&& radius > i32::MIN
}

/// Strict lexicographic order on chunk coordinates (X first, then Z).
pub open spec fn lex_before(a: ChunkCoord, b: ChunkCoord) -> bool {
    a.x < b.x || (a.x == b.x && a.z < b.z)
}

/// `plan` turns the loaded list `loaded` into exactly the `wanted` set.
pub open spec fn is_chunk_plan(wanted: Seq<ChunkCoord>, loaded: Seq<ChunkCoord>, plan: ChunkPlan) -> bool {
    &&& forall|i: usize| plan.despawn@.contains(i) <==> (i < loaded.len() && !wanted.contains(loaded[i as int]))
    &&& forall|c: ChunkCoord| plan.spawn@.contains(c) <==> (wanted.contains(c) && !loaded.contains(c))
}

/// Whether chunk `c` overlaps the world square of half-extent `radius` cells.
pub fn chunk_overlaps_world(c: ChunkCoord, radius: i32) -> (b: bool)
    requires
        index_in_range(c.x as int),
        index_in_range(c.z as int),
        radius > i32::MIN,
    ensures
        b == overlaps_world(c, radius as int),
{
    let min_x = c.x * CHUNK_SIZE;
    let min_z = c.z * CHUNK_SIZE;
    let max_x = min_x + CHUNK_SIZE;
    let max_z = min_z + CHUNK_SIZE;
    !(max_x <= -radius || min_x >= radius || max_z <= -radius || min_z >= radius)
}

/// The chunks to keep loaded around the camera chunk `cam`: every chunk
/// within `max(render_distance, 1)` chunks on both axes that overlaps
/// the world, each listed once, in X-then-Z order.
pub fn wanted_chunks(cam: ChunkCoord, render_distance: i32, radius: i32) -> (v: Vec<ChunkCoord>)
    requires
        view_in_range(cam, render_distance, radius),
    ensures
        forall|c: ChunkCoord| v@.contains(c) <==> is_wanted(c, cam, render_distance, radius),
        forall|i: int, j: int| 0 <= i < j < v@.len() ==> lex_before(v@[i], v@[j]),
        v@.no_duplicates(),
        v@.len() <= (2 * effective_distance(render_distance) + 1) * (2 * effective_distance(render_distance) + 1),
{
    let r: i32 = if render_distance < 1 { 1 } else { render_distance };
    let mut v: Vec<ChunkCoord> = Vec::new();
    let mut dx: i32 = -r;
    while dx <= r
        invariant
            r == effective_distance(render_distance),
            view_in_range(cam, render_distance, radius),
            -r <= dx <= r + 1,
            v@.len() <= (dx + r) * (2 * r + 1),
            forall|i: int| 0 <= i < v@.len() ==> is_wanted(#[trigger] v@[i], cam, render_distance, radius),
            forall|i: int| 0 <= i < v@.len() ==> (#[trigger] v@[i]).x < cam.x + dx,
            forall|i: int, j: int| 0 <= i < j < v@.len() ==> lex_before(v@[i], v@[j]),
            forall|c: ChunkCoord|
                is_wanted(c, cam, render_distance, radius) && c.x < cam.x + dx ==> #[trigger] v@.contains(c),
        decreases r + 1 - dx,
    {
        let mut dz: i32 = -r;
        let ghost v_outer = v@;
        while dz <= r
            invariant
                r == effective_distance(render_distance),
                view_in_range(cam, render_distance, radius),
                -r <= dx <= r,
                -r <= dz <= r + 1,
                v_outer.len() <= (dx + r) * (2 * r + 1),
                v@.len() <= v_outer.len() + (dz + r),
                v_outer.len() <= v@.len(),
                forall|i: int| 0 <= i < v_outer.len() ==> v@[i] == v_outer[i],
                forall|i: int| 0 <= i < v_outer.len() ==> (#[trigger] v_outer[i]).x < cam.x + dx,
                forall|i: int| v_outer.len() <= i < v@.len() ==>
                    (#[trigger] v@[i]).x == cam.x + dx && v@[i].z < cam.z + dz,
                forall|i: int| 0 <= i < v@.len() ==> is_wanted(#[trigger] v@[i], cam, render_distance, radius),
                forall|i: int, j: int| 0 <= i < j < v@.len() ==> lex_before(v@[i], v@[j]),
                forall|c: ChunkCoord|
                    is_wanted(c, cam, render_distance, radius) && c.x < cam.x + dx ==> #[trigger] v_outer.contains(c),
                forall|c: ChunkCoord|
                    is_wanted(c, cam, render_distance, radius) && (c.x < cam.x + dx || (c.x == cam.x + dx && c.z < cam.z + dz))
                        ==> #[trigger] v@.contains(c),
            decreases r + 1 - dz,
        {
            let coord = ChunkCoord { x: cam.x + dx, z: cam.z + dz };
            let ghost before = v@;
            if chunk_overlaps_world(coord, radius) {
                assert forall|i: int| 0 <= i < before.len() implies lex_before(#[trigger] before[i], coord) by {
                    if i < v_outer.len() {
                        assert(v_outer[i].x < cam.x + dx);
                    }
                }
                v.push(coord);
                assert(v@[v@.len() - 1] == coord);
                assert forall|c: ChunkCoord|
                    is_wanted(c, cam, render_distance, radius) && (c.x < cam.x + dx || (c.x == cam.x + dx && c.z < cam.z + dz + 1))
                    implies #[trigger] v@.contains(c) by {
                    if c == coord {
                        assert(v@[v@.len() - 1] == c);
                    } else {
                        assert(before.contains(c));
                        let k = choose|k: int| 0 <= k < before.len() && before[k] == c;
                        assert(v@[k] == c);
                    }
                }
            } else {
                assert forall|c: ChunkCoord|
                    is_wanted(c, cam, render_distance, radius) && (c.x < cam.x + dx || (c.x == cam.x + dx && c.z < cam.z + dz + 1))
                    implies #[trigger] v@.contains(c) by {
                    if c == coord {
                        assert(false);
                    } else {
                        assert(before.contains(c));
                    }
                }
            }
            dz = dz + 1;
        }
        assert((dx + r) * (2 * r + 1) + (2 * r + 1) == (dx + 1 + r) * (2 * r + 1)) by (nonlinear_arith);
        assert forall|i: int| 0 <= i < v@.len() implies (#[trigger] v@[i]).x < cam.x + dx + 1 by {
            if i < v_outer.len() {
                assert(v_outer[i].x < cam.x + dx);
            }
        }
        dx = dx + 1;
        assert forall|c: ChunkCoord|
            is_wanted(c, cam, render_distance, radius) && c.x < cam.x + dx implies #[trigger] v@.contains(c) by {
            if c.x == cam.x + dx - 1 {
                assert(c.z <= cam.z + r);
            }
        }
    }
    assert forall|c: ChunkCoord| v@.contains(c) implies is_wanted(c, cam, render_distance, radius) by {
        let k = choose|k: int| 0 <= k < v@.len() && v@[k] == c;
    }
    assert(v@.no_duplicates()) by {
        assert forall|i: int, j: int| 0 <= i < v@.len() && 0 <= j < v@.len() && i != j implies v@[i] != v@[j] by {
            if i < j {
                assert(lex_before(v@[i], v@[j]));
            } else {
                assert(lex_before(v@[j], v@[i]));
            }
        }
    }
    v
}

/// Whether `c` occurs in `v`.
pub fn contains_coord(v: &Vec<ChunkCoord>, c: ChunkCoord) -> (b: bool)
    ensures
        b == v@.contains(c),
{
    let mut i: usize = 0;
    while i < v.len()
        invariant
            i <= v@.len(),
            forall|k: int| 0 <= k < i ==> v@[k] != c,
        decreases v@.len() - i,
    {
        if v[i] == c {
            return true;
        }
        i = i + 1;
    }
    false
}

/// The spawns and despawns that bring the loaded chunks (`loaded[i]`
/// is the coordinate of the i-th loaded chunk) to the wanted set:
/// despawn every loaded chunk that is not wanted, spawn every wanted
/// chunk that is not loaded.
pub fn plan_chunk_updates(wanted: &Vec<ChunkCoord>, loaded: &Vec<ChunkCoord>) -> (plan: ChunkPlan)
    ensures
        is_chunk_plan(wanted@, loaded@, plan),
        forall|a: int, b: int| 0 <= a < b < plan.despawn@.len() ==> plan.despawn@[a] < plan.despawn@[b],
        wanted@.no_duplicates() ==> plan.spawn@.no_duplicates(),
{
    let mut despawn: Vec<usize> = Vec::new();
    let mut i: usize = 0;
    while i < loaded.len()
        invariant
            i <= loaded@.len(),
            forall|j: usize| despawn@.contains(j) <==> (j < i && !wanted@.contains(loaded@[j as int])),
            forall|a: int, b: int| 0 <= a < b < despawn@.len() ==> despawn@[a] < despawn@[b],
            forall|a: int| 0 <= a < despawn@.len() ==> despawn@[a] < i,
        decreases loaded@.len() - i,
    {
        let ghost before = despawn@;
        if !contains_coord(wanted, loaded[i]) {
            despawn.push(i);
            assert forall|j: usize| despawn@.contains(j) <==> (j < i + 1 && !wanted@.contains(loaded@[j as int])) by {
                if j == i {
                    assert(despawn@[despawn@.len() - 1] == j);
                } else if before.contains(j) {
                    let k = choose|k: int| 0 <= k < before.len() && before[k] == j;
                    assert(despawn@[k] == j);
                } else if despawn@.contains(j) {
                    let k = choose|k: int| 0 <= k < despawn@.len() && despawn@[k] == j;
                    if k < before.len() {
                        assert(before[k] == j);
                    }
                }
            }
        } else {
            assert forall|j: usize| despawn@.contains(j) <==> (j < i + 1 && !wanted@.contains(loaded@[j as int])) by {
                if j == i && despawn@.contains(j) {
                    let k = choose|k: int| 0 <= k < despawn@.len() && despawn@[k] == j;
                }
            }
        }
        i = i + 1;
    }
    let mut spawn: Vec<ChunkCoord> = Vec::new();
    let mut w: usize = 0;
    while w < wanted.len()
        invariant
            w <= wanted@.len(),
            forall|c: ChunkCoord| spawn@.contains(c) <==> (wanted@.take(w as int).contains(c) && !loaded@.contains(c)),
            wanted@.no_duplicates() ==> spawn@.no_duplicates(),
        decreases wanted@.len() - w,
    {
        let c = wanted[w];
        let ghost before = spawn@;
        let ghost t0 = wanted@.take(w as int);
        let ghost t1 = wanted@.take(w + 1);
        assert(t1 == t0.push(c));
        if !contains_coord(loaded, c) {
            proof {
                if wanted@.no_duplicates() {
                    if before.contains(c) {
                        let k = choose|k: int| 0 <= k < w && t0[k] == c;
                        assert(wanted@[k] == wanted@[w as int]);
                    }
                }
            }
            spawn.push(c);
            assert forall|d: ChunkCoord| spawn@.contains(d) <==> (t1.contains(d) && !loaded@.contains(d)) by {
                if d == c {
                    assert(spawn@[spawn@.len() - 1] == d);
                    assert(t1[w as int] == d);
                } else {
                    if before.contains(d) {
                        let k = choose|k: int| 0 <= k < before.len() && before[k] == d;
                        assert(spawn@[k] == d);
                    }
                    if spawn@.contains(d) {
                        let k = choose|k: int| 0 <= k < spawn@.len() && spawn@[k] == d;
                        assert(before[k] == d);
                    }
                    if t0.contains(d) {
                        let k = choose|k: int| 0 <= k < w && t0[k] == d;
                        assert(t1[k] == d);
                    }
                    if t1.contains(d) {
                        let k = choose|k: int| 0 <= k < w + 1 && t1[k] == d;
                        assert(t0[k] == d);
                    }
                }
            }
        } else {
            assert forall|d: ChunkCoord| spawn@.contains(d) <==> (t1.contains(d) && !loaded@.contains(d)) by {
                if t0.contains(d) {
                    let k = choose|k: int| 0 <= k < w && t0[k] == d;
                    assert(t1[k] == d);
                }
                if t1.contains(d) && d != c {
                    let k = choose|k: int| 0 <= k < w + 1 && t1[k] == d;
                    assert(t0[k] == d);
                }
            }
        }
        w = w + 1;
    }
    assert(wanted@.take(wanted@.len() as int) == wanted@);
    ChunkPlan { despawn, spawn }
}

/// The cell range covered by chunk `coord`, clipped to the world
/// square `[-radius, radius)`.
pub fn chunk_cell_range(coord: ChunkCoord, radius: i32) -> (r: CellRange)
    requires
        index_in_range(coord.x as int),
        index_in_range(coord.z as int),
        radius > i32::MIN,
    ensures
        (r.min_x < r.max_x && r.min_z < r.max_z) <==> overlaps_world(coord, radius as int),
        r.min_x == if coord.x * CHUNK_SIZE < -radius { -radius } else { coord.x * CHUNK_SIZE },
        r.min_z == if coord.z * CHUNK_SIZE < -radius { -radius } else { coord.z * CHUNK_SIZE },
        r.max_x == if coord.x * CHUNK_SIZE + CHUNK_SIZE > radius { radius as int } else { coord.x * CHUNK_SIZE + CHUNK_SIZE },
        r.max_z == if coord.z * CHUNK_SIZE + CHUNK_SIZE > radius { radius as int } else { coord.z * CHUNK_SIZE + CHUNK_SIZE },
{
    let cell_min_x = coord.x * CHUNK_SIZE;
    let cell_min_z = coord.z * CHUNK_SIZE;
    let cell_max_x = if cell_min_x + CHUNK_SIZE > radius { radius } else { cell_min_x + CHUNK_SIZE };
    let cell_max_z = if cell_min_z + CHUNK_SIZE > radius { radius } else { cell_min_z + CHUNK_SIZE };
    let cell_min_x = if cell_min_x < -radius { -radius } else { cell_min_x };
    let cell_min_z = if cell_min_z < -radius { -radius } else { cell_min_z };
    proof {
        lemma_overlaps_world_iff_cell_inside(coord, radius as int);
    }
    CellRange { min_x: cell_min_x, max_x: cell_max_x, min_z: cell_min_z, max_z: cell_max_z }
}

/// A chunk overlaps the world exactly when one of its own cells lies in
/// the world square `[-radius, radius)` on both axes.
pub proof fn lemma_overlaps_world_iff_cell_inside(c: ChunkCoord, radius: int)
    ensures
        overlaps_world(c, radius) <==> exists|x: int, z: int|
            #[trigger] chunk_contains_cell(c, x, z) && world_contains_cell(radius, x, z),
{
    let min_x = c.x * CHUNK_SIZE;
    let min_z = c.z * CHUNK_SIZE;
    if overlaps_world(c, radius) {
        if radius <= 0 {
            // A chunk starting below a non-positive bound starts at or
            // below -CHUNK_SIZE, so it ends at or below zero.
            assert(c.x < 0);
            assert(c.x * CHUNK_SIZE <= -CHUNK_SIZE);
            assert(false);
        }
        let x = if min_x < -radius { -radius } else { min_x };
        let z = if min_z < -radius { -radius } else { min_z };
        assert(chunk_contains_cell(c, x, z) && world_contains_cell(radius, x, z));
    }
}

/// After a plan is carried out (the despawned chunks removed, the
/// spawned ones added), the loaded chunks are exactly the wanted ones.
pub proof fn lemma_plan_reaches_wanted(wanted: Seq<ChunkCoord>, loaded: Seq<ChunkCoord>, plan: ChunkPlan)
    requires
        loaded.len() <= usize::MAX,
        is_chunk_plan(wanted, loaded, plan),
    ensures
        forall|c: ChunkCoord|
            ((exists|i: usize| i < loaded.len() && loaded[i as int] == c && !plan.despawn@.contains(i))
                || plan.spawn@.contains(c)) <==> wanted.contains(c),
{
    assert forall|c: ChunkCoord|
        ((exists|i: usize| i < loaded.len() && loaded[i as int] == c && !plan.despawn@.contains(i))
            || plan.spawn@.contains(c)) <==> wanted.contains(c) by {
        if exists|i: usize| i < loaded.len() && loaded[i as int] == c && !plan.despawn@.contains(i) {
            let i = choose|i: usize| i < loaded.len() && loaded[i as int] == c && !plan.despawn@.contains(i);
            assert(!(i < loaded.len() && !wanted.contains(loaded[i as int])));
        }
        if wanted.contains(c) && !plan.spawn@.contains(c) {
            assert(loaded.contains(c));
            let k = choose|k: int| 0 <= k < loaded.len() && loaded[k] == c;
            let i: usize = k as usize;
            assert(loaded[i as int] == c);
            assert(!plan.despawn@.contains(i));
        }
    }
}

} // verus!
