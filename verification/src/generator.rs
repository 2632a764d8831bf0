//! The streaming scheduler: a fixed set of chunk slots kept mapped over a
//! square window of chunk offsets around the viewer. Each frame it
//! recomputes the window, evicts slots that left it, registers finished
//! generation jobs, remeshes a bounded number of dirty chunks, and plans
//! new generation jobs for missing window cells, nearest first.
//!
//! The scheduler itself performs no I/O and owns no GPU resources: a
//! frame returns the actions the surrounding loop must perform — meshes
//! to upload, slots to shrink and save, jobs to run — and takes back the
//! slots whose jobs finished.
use vstd::prelude::*;

use crate::biomes::{prairie_params, BiomeParameters};
use crate::chunk::{Chunk, CHUNK_AREA, CHUNK_Y_SIZE, TOTAL_CHUNK_SIZE};
use crate::chunk_manager::ChunkManager;
use crate::coords::{div_floor, offset_in_range, Vec3i};
use crate::noise::NoiseGenerator;

verus! {

/// Sea level: generated empty space at or below this height floods with
/// water.
pub const LAND_LEVEL: usize = 9;

/// How many generation jobs may be in flight at once.
pub const MAX_JOBS_IN_FLIGHT: usize = 8;

/// Vertex capacity a slot's GPU buffer is shrunk back to on eviction.
pub const MIN_VERTEX_CAP: usize = 4096;

/// Index capacity a slot's GPU buffer is shrunk back to on eviction.
pub const MIN_INDEX_CAP: usize = 8192;

/// Largest supported window side length, in chunks.
pub const MAX_VIEW_SIZE: usize = 1024;

/// Bound on the absolute value of any viewer world coordinate; keeps
/// every window offset inside the supported offset range.
pub const VIEW_COORD_LIMIT: i32 = 16000000;

/// A viewer position the scheduler accepts.
pub open spec fn viewer_pos_in_range(p: Vec3i) -> bool {
    &&& -VIEW_COORD_LIMIT <= p.x <= VIEW_COORD_LIMIT
    &&& -VIEW_COORD_LIMIT <= p.y <= VIEW_COORD_LIMIT
    &&& -VIEW_COORD_LIMIT <= p.z <= VIEW_COORD_LIMIT
}

/// The chunk-space offset of the chunk column under a world position;
/// the window is horizontal, so the vertical component is zero.
pub open spec fn spec_viewer_chunk_offset(p: Vec3i) -> Vec3i {
    Vec3i { x: (p.x as int / CHUNK_AREA as int) as i32, y: 0, z: (p.z as int / CHUNK_AREA as int) as i32 }
}

/// The window origin (lowest corner) for a given center.
pub open spec fn spec_origin_for(center: Vec3i, view_size: int) -> Vec3i {
    Vec3i { x: (center.x - view_size / 2) as i32, y: 0, z: (center.z - view_size / 2) as i32 }
}

/// The chunk offset of window cell `i`: cells walk x first, then z.
pub open spec fn spec_cell_offset(origin: Vec3i, view_size: int, i: int) -> Vec3i {
    Vec3i { x: (origin.x + i % view_size) as i32, y: 0, z: (origin.z + i / view_size) as i32 }
}

/// The squared horizontal distance between two chunk offsets.
pub open spec fn spec_sq_dist(a: Vec3i, b: Vec3i) -> int {
    (a.x - b.x) * (a.x - b.x) + (a.z - b.z) * (a.z - b.z)
}

/// Whether a chunk offset lies inside the window square at `origin`.
pub open spec fn spec_chunk_in_bounds(origin: Vec3i, view_size: int, off: Vec3i) -> bool {
    &&& 0 <= off.x - origin.x < view_size
    &&& 0 <= off.z - origin.z < view_size
}

/// The window cell of a chunk offset inside the window.
pub open spec fn spec_cell_of_offset(origin: Vec3i, view_size: int, off: Vec3i) -> int {
    (off.z - origin.z) * view_size + (off.x - origin.x)
}

/// How many window cells are currently mapped to a slot, over the first
/// `n` cells.
pub open spec fn spec_loaded_upto(cells: Seq<Option<usize>>, n: int) -> int
    decreases n,
{
    if n <= 0 {
        0
    } else {
        spec_loaded_upto(cells, n - 1) + if cells[n - 1] is Some {
            1int
        } else {
            0int
        }
    }
}

/// Whether some window cell of `tg` is mapped to slot `s`.
pub open spec fn spec_slot_mapped(tg: TerrainGen, s: usize) -> bool {
    exists|i: int| 0 <= i < tg.spec_capacity() && tg.chunk_indices@[i] == Some(s)
}

/// The subsequence of `ready` whose slots no window cell of `tg` maps,
/// in order.
pub open spec fn spec_unmapped_slots(tg: TerrainGen, ready: Seq<usize>) -> Seq<usize>
    decreases ready.len(),
{
    if ready.len() == 0 {
        Seq::empty()
    } else {
        spec_unmapped_slots(tg, ready.drop_last()) + if spec_slot_mapped(tg, ready.last()) {
            Seq::<usize>::empty()
        } else {
            seq![ready.last()]
        }
    }
}

/// Appending a mapped slot leaves the unmapped subsequence unchanged;
/// appending an unmapped slot appends it.
proof fn lemma_unmapped_slots_push(tg: TerrainGen, ready: Seq<usize>, x: usize)
    ensures
        spec_slot_mapped(tg, x) ==> spec_unmapped_slots(tg, ready.push(x))
            == spec_unmapped_slots(tg, ready),
        !spec_slot_mapped(tg, x) ==> spec_unmapped_slots(tg, ready.push(x))
            == spec_unmapped_slots(tg, ready).push(x),
{
    assert(ready.push(x).drop_last() =~= ready);
    assert(ready.push(x).last() == x);
    if spec_slot_mapped(tg, x) {
        assert(spec_unmapped_slots(tg, ready.push(x)) =~= spec_unmapped_slots(tg, ready));
    } else {
        assert(spec_unmapped_slots(tg, ready.push(x)) =~= spec_unmapped_slots(tg, ready).push(x));
    }
}

/// Every element of the unmapped subsequence is an unmapped slot of the
/// source list.
proof fn lemma_unmapped_slots_sound(tg: TerrainGen, ready: Seq<usize>, i: int)
    requires
        0 <= i < spec_unmapped_slots(tg, ready).len(),
    ensures
        !spec_slot_mapped(tg, spec_unmapped_slots(tg, ready)[i]),
        ready.contains(spec_unmapped_slots(tg, ready)[i]),
    decreases ready.len(),
{
    let sub = spec_unmapped_slots(tg, ready.drop_last());
    if i < sub.len() {
        lemma_unmapped_slots_sound(tg, ready.drop_last(), i);
        let j = choose|j: int|
            0 <= j < ready.drop_last().len() && ready.drop_last()[j] == sub[i];
        assert(ready[j] == spec_unmapped_slots(tg, ready)[i]);
    } else {
        assert(!spec_slot_mapped(tg, ready.last()));
        assert(spec_unmapped_slots(tg, ready)[i] == ready.last());
        assert(ready[ready.len() - 1] == ready.last());
    }
}

/// Every unmapped slot of the source list occurs in the unmapped
/// subsequence.
proof fn lemma_unmapped_slots_complete(tg: TerrainGen, ready: Seq<usize>, k: int)
    requires
        0 <= k < ready.len(),
        !spec_slot_mapped(tg, ready[k]),
    ensures
        spec_unmapped_slots(tg, ready).contains(ready[k]),
    decreases ready.len(),
{
    let sub = spec_unmapped_slots(tg, ready.drop_last());
    if k < ready.len() - 1 {
        lemma_unmapped_slots_complete(tg, ready.drop_last(), k);
        let j = choose|j: int| 0 <= j < sub.len() && sub[j] == ready.drop_last()[k];
        assert(spec_unmapped_slots(tg, ready)[j] == ready[k]);
    } else {
        assert(spec_unmapped_slots(tg, ready)[sub.len() as int] == ready[k]);
    }
}

/// A request to generate (or load from disk) the chunk at `offset` into
/// slot `slot`.
pub struct JobRequest {
    pub slot: usize,
    pub offset: Vec3i,
}

/// A request to persist the given serialized material array as the chunk
/// at `offset`.
pub struct SaveRequest {
    pub offset: Vec3i,
    pub data: Vec<u8>,
}

/// A slot leaving the window: the surrounding loop shrinks its GPU
/// buffers back to the minimum capacities and, where `save` is present,
/// hands the serialized chunk to the save worker.
pub struct Eviction {
    pub slot: usize,
    pub save: Option<SaveRequest>,
}

/// Everything one frame asks the surrounding loop to do.
pub struct UpdateActions {
    /// Slots whose GPU buffers must be re-uploaded from their chunk mesh.
    pub uploads: Vec<usize>,
    /// Slots that left the window.
    pub evictions: Vec<Eviction>,
    /// Generation jobs to run, nearest window cell first.
    pub jobs: Vec<JobRequest>,
}

/// The streaming scheduler state.
pub struct TerrainGen {
    /// The chunk slots and the offset-to-slot index.
    pub chunks: ChunkManager,
    /// Side length of the window square, in chunks.
    pub chunks_view_size: usize,
    /// The slot mapped at each window cell, if any.
    pub chunk_indices: Vec<Option<usize>>,
    /// Slots not mapped anywhere, ready for new jobs; first in, first
    /// out.
    pub free_chunk_indices: Vec<usize>,
    /// The viewer's chunk offset at the last recenter.
    pub center_offset: Vec3i,
    /// The window's lowest corner.
    pub chunks_origin: Vec3i,
    /// Which slots have a generation job in flight.
    pub pending_jobs: Vec<bool>,
    /// How many jobs are in flight.
    pub pending_count: usize,
    /// Slots queued for the bounded per-frame remesh pass, oldest first.
    pub dirty_queue: Vec<usize>,
    /// Which slots are in `dirty_queue`.
    pub dirty_set: Vec<bool>,
    /// The seeded height sampler.
    pub noise: NoiseGenerator,
    /// The generation profile.
    pub biome: BiomeParameters,
    /// Sea level passed to generation.
    pub land_level: usize,
}

impl TerrainGen {
    /// The total number of slots.
    pub open spec fn spec_capacity(self) -> int {
        self.chunks_view_size * self.chunks_view_size
    }

    /// Structural well-formedness: every per-slot vector covers all
    /// slots, window bookkeeping is consistent, mapped cells point at
    /// distinct slots, and the dirty queue holds exactly the flagged
    /// slots, each once.
    pub open spec fn wf(self) -> bool {
        let cap = self.spec_capacity();
        &&& self.chunks.wf()
        &&& 2 <= self.chunks_view_size <= MAX_VIEW_SIZE
        &&& self.chunks.chunks@.len() == cap
        &&& self.chunk_indices@.len() == cap
        &&& self.pending_jobs@.len() == cap
        &&& self.dirty_set@.len() == cap
        &&& forall|i: int|
            0 <= i < cap ==> ((#[trigger] self.chunk_indices@[i]) matches Some(s) ==> s < cap)
        &&& forall|i: int, j: int|
            0 <= i < cap && 0 <= j < cap && i != j && (#[trigger] self.chunk_indices@[i]) is Some
                ==> self.chunk_indices@[i] != #[trigger] self.chunk_indices@[j]
        &&& forall|k: int|
            0 <= k < self.free_chunk_indices@.len() ==> (
            #[trigger] self.free_chunk_indices@[k]) < cap
        &&& forall|k1: int, k2: int|
            0 <= k1 < self.free_chunk_indices@.len() && 0 <= k2 < self.free_chunk_indices@.len()
                && k1 != k2 ==> #[trigger] self.free_chunk_indices@[k1]
                != #[trigger] self.free_chunk_indices@[k2]
        &&& forall|k: int|
            0 <= k < self.free_chunk_indices@.len() ==> !self.pending_jobs@[(
            #[trigger] self.free_chunk_indices@[k]) as int]
        &&& forall|k: int, i: int|
            0 <= k < self.free_chunk_indices@.len() && 0 <= i < cap
                ==> #[trigger] self.chunk_indices@[i] != Some(
                #[trigger] self.free_chunk_indices@[k],
            )
        &&& forall|k: int| 0 <= k < self.dirty_queue@.len() ==> (#[trigger] self.dirty_queue@[k]) < cap
        &&& forall|k1: int, k2: int|
            0 <= k1 < self.dirty_queue@.len() && 0 <= k2 < self.dirty_queue@.len() && k1 != k2
                ==> #[trigger] self.dirty_queue@[k1] != #[trigger] self.dirty_queue@[k2]
        &&& forall|s: int|
            0 <= s < cap ==> ((#[trigger] self.dirty_set@[s]) <==> exists|k: int|
                0 <= k < self.dirty_queue@.len() && self.dirty_queue@[k] == s)
        &&& self.pending_count <= MAX_JOBS_IN_FLIGHT
        &&& self.biome.wf()
        &&& self.land_level < CHUNK_Y_SIZE
        &&& -1000600 <= self.chunks_origin.x <= 1000600
        &&& -1000600 <= self.chunks_origin.z <= 1000600
        &&& self.chunks_origin.y == 0
    }

    /// The chunk column under a world position.
    pub fn world_pos_to_chunk_offset(world_pos: Vec3i) -> (r: Vec3i)
        requires
            viewer_pos_in_range(world_pos),
        ensures
            r == spec_viewer_chunk_offset(world_pos),
            -1000000 <= r.x <= 1000000,
            -1000000 <= r.z <= 1000000,
            r.y == 0,
    {
        let r = Vec3i {
            x: div_floor(world_pos.x, CHUNK_AREA as i32),
            y: 0,
            z: div_floor(world_pos.z, CHUNK_AREA as i32),
        };
        proof {
            vstd::arithmetic::div_mod::lemma_div_is_ordered(
                world_pos.x as int,
                VIEW_COORD_LIMIT as int,
                CHUNK_AREA as int,
            );
            vstd::arithmetic::div_mod::lemma_div_is_ordered(
                -VIEW_COORD_LIMIT as int,
                world_pos.x as int,
                CHUNK_AREA as int,
            );
            vstd::arithmetic::div_mod::lemma_div_is_ordered(
                world_pos.z as int,
                VIEW_COORD_LIMIT as int,
                CHUNK_AREA as int,
            );
            vstd::arithmetic::div_mod::lemma_div_is_ordered(
                -VIEW_COORD_LIMIT as int,
                world_pos.z as int,
                CHUNK_AREA as int,
            );
        }
        r
    }

    /// Whether a chunk offset lies inside the current window.
    pub fn chunk_in_bounds(&self, chunk_offset: Vec3i) -> (r: bool)
        requires
            self.wf(),
        ensures
            r == spec_chunk_in_bounds(self.chunks_origin, self.chunks_view_size as int, chunk_offset),
    {
        let px = chunk_offset.x as i64 - self.chunks_origin.x as i64;
        let pz = chunk_offset.z as i64 - self.chunks_origin.z as i64;
        px >= 0 && pz >= 0 && px < self.chunks_view_size as i64 && pz < self.chunks_view_size as i64
    }

    /// The chunk offset of window cell `i` under an arbitrary origin.
    fn get_chunk_offset_from_origin(&self, origin: Vec3i, i: usize) -> (r: Vec3i)
        requires
            self.wf(),
            i < self.spec_capacity(),
            -1000600 <= origin.x <= 1000600,
            -1000600 <= origin.z <= 1000600,
            origin.y == 0,
        ensures
            r == spec_cell_offset(origin, self.chunks_view_size as int, i as int),
            offset_in_range(r),
            r.y == 0,
    {
        let vs = self.chunks_view_size;
        proof {
            vstd::arithmetic::div_mod::lemma_fundamental_div_mod(i as int, vs as int);
            vstd::arithmetic::div_mod::lemma_mod_bound(i as int, vs as int);
            assert((i as int) / (vs as int) < (vs as int)) by (nonlinear_arith)
                requires
                    i as int == (vs as int) * ((i as int) / (vs as int)) + (i as int) % (
                    vs as int),
                    0 <= (i as int) % (vs as int) < (vs as int),
                    0 <= i as int,
                    (i as int) < (vs as int) * (vs as int),
            ;
        }
        Vec3i { x: origin.x + (i % vs) as i32, y: 0, z: origin.z + (i / vs) as i32 }
    }

    /// The chunk offset of window cell `i` under the current origin.
    fn get_chunk_offset(&self, i: usize) -> (r: Vec3i)
        requires
            self.wf(),
            i < self.spec_capacity(),
        ensures
            r == spec_cell_offset(self.chunks_origin, self.chunks_view_size as int, i as int),
            offset_in_range(r),
    {
        let r = self.get_chunk_offset_from_origin(self.chunks_origin, i);
        r
    }

    /// The window cell of a chunk offset inside the current window.
    fn get_chunk_world_index(&self, chunk_offset: Vec3i) -> (r: usize)
        requires
            self.wf(),
            spec_chunk_in_bounds(self.chunks_origin, self.chunks_view_size as int, chunk_offset),
        ensures
            r == spec_cell_of_offset(self.chunks_origin, self.chunks_view_size as int, chunk_offset),
            r < self.spec_capacity(),
    {
        let vs = self.chunks_view_size;
        let px = (chunk_offset.x - self.chunks_origin.x) as usize;
        let pz = (chunk_offset.z - self.chunks_origin.z) as usize;
        proof {
            assert((pz as int) * (vs as int) + (px as int) < (vs as int) * (vs as int))
                by (nonlinear_arith)
                requires
                    0 <= (px as int) < (vs as int),
                    0 <= (pz as int) < (vs as int),
            ;
            assert((vs as int) * (vs as int) <= 1048576) by (nonlinear_arith)
                requires
                    0 < vs as int <= 1024,
            ;
        }
        pz * vs + px
    }

    /// Whether the chunk column under a world position lies inside the
    /// current window.
    pub fn world_pos_in_bounds(&self, world_pos: Vec3i) -> (r: bool)
        requires
            self.wf(),
            viewer_pos_in_range(world_pos),
        ensures
            r == spec_chunk_in_bounds(
                self.chunks_origin,
                self.chunks_view_size as int,
                spec_viewer_chunk_offset(world_pos),
            ),
    {
        let chunk_offset = Self::world_pos_to_chunk_offset(world_pos);
        self.chunk_in_bounds(chunk_offset)
    }

    /// How many window cells are currently mapped.
    pub fn loaded_chunks(&self) -> (r: usize)
        requires
            self.wf(),
        ensures
            r == spec_loaded_upto(self.chunk_indices@, self.spec_capacity()),
    {
        let n = self.chunk_indices.len();
        let mut count: usize = 0;
        let mut i: usize = 0;
        while i < n
            invariant
                n == self.chunk_indices@.len(),
                i <= n,
                count == spec_loaded_upto(self.chunk_indices@, i as int),
                count <= i,
            decreases n - i,
        {
            if self.chunk_indices[i].is_some() {
                count = count + 1;
            }
            i = i + 1;
        }
        count
    }

    /// Whether any window cell is unmapped.
    fn has_missing_chunks(&self) -> (r: bool)
        requires
            self.wf(),
        ensures
            r == exists|i: int| 0 <= i < self.spec_capacity() && self.chunk_indices@[i] is None,
    {
        let n = self.chunk_indices.len();
        let mut i: usize = 0;
        while i < n
            invariant
                self.wf(),
                n == self.chunk_indices@.len(),
                i <= n,
                forall|j: int| 0 <= j < i ==> self.chunk_indices@[j] is Some,
            decreases n - i,
        {
            if self.chunk_indices[i].is_none() {
                return true;
            }
            i = i + 1;
        }
        false
    }
}

/// Window coverage: every mapped window cell's offset lies inside the
/// window square at the current origin, and no two cells — hence no two
/// mapped slots — share an offset. This holds of every well-formed
/// scheduler state, and every frame of `update` returns one, so it holds
/// after any sequence of frames.
pub proof fn lemma_window_coverage(tg: TerrainGen)
    requires
        tg.wf(),
    ensures
        forall|i: int|
            0 <= i < tg.spec_capacity() && tg.chunk_indices@[i] is Some ==> spec_chunk_in_bounds(
                tg.chunks_origin,
                tg.chunks_view_size as int,
                #[trigger] spec_cell_offset(tg.chunks_origin, tg.chunks_view_size as int, i),
            ),
        forall|i: int, j: int|
            0 <= i < tg.spec_capacity() && 0 <= j < tg.spec_capacity() && i != j
                ==> spec_cell_offset(tg.chunks_origin, tg.chunks_view_size as int, i)
                != spec_cell_offset(tg.chunks_origin, tg.chunks_view_size as int, j),
{
    let vs = tg.chunks_view_size as int;
    assert forall|i: int|
        0 <= i < tg.spec_capacity() && tg.chunk_indices@[i] is Some implies spec_chunk_in_bounds(
        tg.chunks_origin,
        vs,
        #[trigger] spec_cell_offset(tg.chunks_origin, vs, i),
    ) by {
        vstd::arithmetic::div_mod::lemma_fundamental_div_mod(i, vs);
        vstd::arithmetic::div_mod::lemma_mod_bound(i, vs);
        assert(0 <= i / vs < vs) by (nonlinear_arith)
            requires
                i == vs * (i / vs) + i % vs,
                0 <= i % vs < vs,
                0 <= i < vs * vs,
        ;
    }
    assert forall|i: int, j: int|
        0 <= i < tg.spec_capacity() && 0 <= j < tg.spec_capacity() && i != j implies
        spec_cell_offset(tg.chunks_origin, vs, i) != spec_cell_offset(tg.chunks_origin, vs, j) by {
        vstd::arithmetic::div_mod::lemma_fundamental_div_mod(i, vs);
        vstd::arithmetic::div_mod::lemma_mod_bound(i, vs);
        vstd::arithmetic::div_mod::lemma_fundamental_div_mod(j, vs);
        vstd::arithmetic::div_mod::lemma_mod_bound(j, vs);
        assert(0 <= i / vs < vs) by (nonlinear_arith)
            requires
                i == vs * (i / vs) + i % vs,
                0 <= i % vs < vs,
                0 <= i < vs * vs,
        ;
        assert(0 <= j / vs < vs) by (nonlinear_arith)
            requires
                j == vs * (j / vs) + j % vs,
                0 <= j % vs < vs,
                0 <= j < vs * vs,
        ;
        if spec_cell_offset(tg.chunks_origin, vs, i) == spec_cell_offset(tg.chunks_origin, vs, j) {
            assert(((tg.chunks_origin.x + i % vs) as i32) as int == tg.chunks_origin.x + i % vs);
            assert(((tg.chunks_origin.x + j % vs) as i32) as int == tg.chunks_origin.x + j % vs);
            assert(((tg.chunks_origin.z + i / vs) as i32) as int == tg.chunks_origin.z + i / vs);
            assert(((tg.chunks_origin.z + j / vs) as i32) as int == tg.chunks_origin.z + j / vs);
            assert(i % vs == j % vs && i / vs == j / vs);
            assert(i == j);
        }
    }
}

} // verus!

verus! {

/// The slots the first `k` entries of `indices` add to a dirty queue
/// whose membership is `dirty_set`: each entry once, in argument order,
/// skipping entries already flagged or already added.
pub open spec fn spec_newly_queued(dirty_set: Seq<bool>, indices: Seq<usize>, k: int) -> Seq<usize>
    decreases k,
{
    if k <= 0 {
        Seq::empty()
    } else {
        let prev = spec_newly_queued(dirty_set, indices, k - 1);
        prev + if dirty_set[indices[k - 1] as int] || prev.contains(indices[k - 1]) {
            Seq::<usize>::empty()
        } else {
            seq![indices[k - 1]]
        }
    }
}

/// A slot listed before `k` and not already flagged is among the newly
/// queued slots.
proof fn lemma_newly_queued_contains(dirty_set: Seq<bool>, indices: Seq<usize>, k: int, x: usize)
    requires
        0 <= k <= indices.len(),
        0 <= (x as int) < dirty_set.len(),
        !dirty_set[x as int],
        exists|kk: int| 0 <= kk < k && indices[kk] == x,
    ensures
        spec_newly_queued(dirty_set, indices, k).contains(x),
    decreases k,
{
    let prev = spec_newly_queued(dirty_set, indices, k - 1);
    if exists|kk: int| 0 <= kk < k - 1 && indices[kk] == x {
        lemma_newly_queued_contains(dirty_set, indices, k - 1, x);
        let j = choose|j: int| 0 <= j < prev.len() && prev[j] == x;
        assert(spec_newly_queued(dirty_set, indices, k)[j] == x);
    } else {
        assert(indices[k - 1] == x);
        if prev.contains(x) {
            let j = choose|j: int| 0 <= j < prev.len() && prev[j] == x;
            assert(spec_newly_queued(dirty_set, indices, k)[j] == x);
        } else {
            assert(spec_newly_queued(dirty_set, indices, k)[prev.len() as int] == x);
        }
    }
}

/// Every newly queued slot comes from the first `k` entries of the
/// argument list.
proof fn lemma_newly_queued_from_args(dirty_set: Seq<bool>, indices: Seq<usize>, k: int, x: usize)
    requires
        0 <= k <= indices.len(),
        spec_newly_queued(dirty_set, indices, k).contains(x),
    ensures
        exists|kk: int| 0 <= kk < k && indices[kk] == x,
    decreases k,
{
    let prev = spec_newly_queued(dirty_set, indices, k - 1);
    if prev.contains(x) {
        lemma_newly_queued_from_args(dirty_set, indices, k - 1, x);
    } else {
        assert(indices[k - 1] == x);
    }
}

/// How many slots one remesh pass pops from the head of `queue`: it
/// stops once `budget` chunks that were actually dirty have been
/// processed, or the queue is exhausted.
pub open spec fn spec_dirty_pops(queue: Seq<usize>, chunks: Seq<crate::chunk::Chunk>, budget: int) -> int
    decreases queue.len(),
{
    if budget <= 0 || queue.len() == 0 {
        0
    } else {
        1 + spec_dirty_pops(
            queue.drop_first(),
            chunks,
            budget - (if chunks[queue[0] as int].dirty {
                1int
            } else {
                0int
            }),
        )
    }
}

/// The slots one remesh pass actually remeshes: the popped slots whose
/// chunks were dirty, in queue order, at most `budget` of them.
pub open spec fn spec_dirty_uploads(
    queue: Seq<usize>,
    chunks: Seq<crate::chunk::Chunk>,
    budget: int,
) -> Seq<usize>
    decreases queue.len(),
{
    if budget <= 0 || queue.len() == 0 {
        Seq::empty()
    } else if chunks[queue[0] as int].dirty {
        seq![queue[0]] + spec_dirty_uploads(queue.drop_first(), chunks, budget - 1)
    } else {
        spec_dirty_uploads(queue.drop_first(), chunks, budget)
    }
}

impl TerrainGen {
    /// Build a scheduler with `render_distance_chunks` chunks of window
    /// side (at least two), all slots free, nothing mapped, and the
    /// window centred on the world origin.
    pub fn new(render_distance_chunks: usize, seed: u32) -> (tg: TerrainGen)
        requires
            render_distance_chunks <= MAX_VIEW_SIZE,
        ensures
            tg.wf(),
            tg.chunks_view_size == (if render_distance_chunks >= 2 {
                render_distance_chunks as int
            } else {
                2
            }),
            tg.center_offset == (Vec3i { x: 0, y: 0, z: 0 }),
            tg.chunks_origin == spec_origin_for(Vec3i { x: 0, y: 0, z: 0 }, tg.chunks_view_size as int),
            forall|i: int| 0 <= i < tg.spec_capacity() ==> tg.chunk_indices@[i] is None,
            tg.free_chunk_indices@.len() == tg.spec_capacity(),
            forall|k: int|
                0 <= k < tg.spec_capacity() ==> #[trigger] tg.free_chunk_indices@[k] == k,
            forall|s: int| 0 <= s < tg.spec_capacity() ==> !tg.pending_jobs@[s],
            tg.pending_count == 0,
            tg.dirty_queue@.len() == 0,
            tg.noise.seed == seed,
            tg.biome == (BiomeParameters { base_height: 10u32, amplitude: 6u32, frequency: 32u32 }),
            tg.land_level == LAND_LEVEL,
    {
        let chunks_view_size: usize = if render_distance_chunks >= 2 {
            render_distance_chunks
        } else {
            2
        };
        proof {
            assert((chunks_view_size as int) * (chunks_view_size as int) <= 1048576)
                by (nonlinear_arith)
                requires
                    0 < chunks_view_size as int <= 1024,
            ;
        }
        let chunk_capacity = chunks_view_size * chunks_view_size;
        let mut chunks = ChunkManager::new();
        let mut chunk_indices: Vec<Option<usize>> = Vec::new();
        let mut free_chunk_indices: Vec<usize> = Vec::new();
        let mut pending_jobs: Vec<bool> = Vec::new();
        let mut dirty_set: Vec<bool> = Vec::new();
        let mut x: usize = 0;
        while x < chunk_capacity
            invariant
                x <= chunk_capacity,
                chunks.wf(),
                chunks.chunks@.len() == x,
                chunk_indices@.len() == x,
                free_chunk_indices@.len() == x,
                pending_jobs@.len() == x,
                dirty_set@.len() == x,
                forall|i: int| 0 <= i < x ==> chunk_indices@[i] is None,
                forall|k: int| 0 <= k < x ==> #[trigger] free_chunk_indices@[k] == k,
                forall|s: int| 0 <= s < x ==> !pending_jobs@[s],
                forall|s: int| 0 <= s < x ==> !dirty_set@[s],
            decreases chunk_capacity - x,
        {
            chunks.add_chunk(Chunk::new(Vec3i { x: 0, y: 0, z: 0 }));
            chunk_indices.push(None);
            free_chunk_indices.push(x);
            pending_jobs.push(false);
            dirty_set.push(false);
            x = x + 1;
        }
        let center_offset = Vec3i { x: 0, y: 0, z: 0 };
        let half = (chunks_view_size / 2) as i32;
        let chunks_origin = Vec3i { x: center_offset.x - half, y: 0, z: center_offset.z - half };
        TerrainGen {
            chunks,
            chunks_view_size,
            chunk_indices,
            free_chunk_indices,
            center_offset,
            chunks_origin,
            pending_jobs,
            pending_count: 0,
            dirty_queue: Vec::new(),
            dirty_set,
            noise: NoiseGenerator::new(seed),
            biome: prairie_params(),
            land_level: LAND_LEVEL,
        }
    }

    /// Queue each given slot for the bounded remesh pass, once: a slot
    /// already queued is not queued again.
    pub fn mark_chunks_dirty(&mut self, indices: &Vec<usize>)
        requires
            old(self).wf(),
            forall|k: int|
                0 <= k < indices@.len() ==> (#[trigger] indices@[k]) < old(self).spec_capacity(),
        ensures
            final(self).wf(),
            forall|s: int|
                0 <= s < old(self).spec_capacity() ==> #[trigger] final(self).dirty_set@[s] == (old(self).dirty_set@[s] || exists|k: int| 0 <= k < indices@.len() && indices@[k] == s),
            final(self).dirty_queue@ == old(self).dirty_queue@ + spec_newly_queued(
                old(self).dirty_set@,
                indices@,
                indices@.len() as int,
            ),
            final(self).chunks == old(self).chunks,
            final(self).chunk_indices == old(self).chunk_indices,
            final(self).free_chunk_indices == old(self).free_chunk_indices,
            final(self).center_offset == old(self).center_offset,
            final(self).chunks_origin == old(self).chunks_origin,
            final(self).pending_jobs == old(self).pending_jobs,
            final(self).pending_count == old(self).pending_count,
            final(self).chunks_view_size == old(self).chunks_view_size,
    {
        let n = indices.len();
        let mut k: usize = 0;
        while k < n
            invariant
                self.wf(),
                old(self).wf(),
                n == indices@.len(),
                k <= n,
                self.spec_capacity() == old(self).spec_capacity(),
                forall|kk: int| 0 <= kk < n ==> (#[trigger] indices@[kk]) < self.spec_capacity(),
                forall|s: int|
                    0 <= s < self.spec_capacity() ==> #[trigger] self.dirty_set@[s] == (old(self).dirty_set@[s] || exists|kk: int| 0 <= kk < k && indices@[kk] == s),
                self.dirty_queue@ == old(self).dirty_queue@ + spec_newly_queued(
                    old(self).dirty_set@,
                    indices@,
                    k as int,
                ),
                self.chunks == old(self).chunks,
                self.chunk_indices == old(self).chunk_indices,
                self.free_chunk_indices == old(self).free_chunk_indices,
                self.center_offset == old(self).center_offset,
                self.chunks_origin == old(self).chunks_origin,
                self.pending_jobs == old(self).pending_jobs,
                self.pending_count == old(self).pending_count,
                self.chunks_view_size == old(self).chunks_view_size,
            decreases n - k,
        {
            let idx = indices[k];
            proof {
                let prev = spec_newly_queued(old(self).dirty_set@, indices@, k as int);
                let next = spec_newly_queued(old(self).dirty_set@, indices@, k as int + 1);
                if self.dirty_set@[idx as int] {
                    if !old(self).dirty_set@[idx as int] {
                        lemma_newly_queued_contains(
                            old(self).dirty_set@,
                            indices@,
                            k as int,
                            idx,
                        );
                    }
                    assert(next =~= prev);
                } else {
                    if prev.contains(idx) {
                        lemma_newly_queued_from_args(
                            old(self).dirty_set@,
                            indices@,
                            k as int,
                            idx,
                        );
                        assert(false);
                    }
                    assert(next =~= prev + seq![idx]);
                }
            }
            if !self.dirty_set[idx] {
                let ghost pre_set = self.dirty_set@;
                let ghost pre_q = self.dirty_queue@;
                self.dirty_set[idx] = true;
                self.dirty_queue.push(idx);
                proof {
                    let cap = self.spec_capacity();
                    let q = self.dirty_queue@;
                    assert(q == pre_q.push(idx));
                    assert(!pre_set[idx as int]);
                    assert(forall|kk: int| 0 <= kk < pre_q.len() ==> pre_q[kk] != idx);
                    assert forall|s: int| 0 <= s < cap implies ((self.dirty_set@[s]) <==> exists|
                        kk: int,
                    | 0 <= kk < q.len() && q[kk] == s) by {
                        if s == idx as int {
                            assert(q[q.len() - 1] == idx);
                        } else {
                            assert(self.dirty_set@[s] == pre_set[s]);
                            if pre_set[s] {
                                let kk = choose|kk: int|
                                    0 <= kk < pre_q.len() && pre_q[kk] == s;
                                assert(q[kk] == s);
                            }
                            if exists|kk: int| 0 <= kk < q.len() && q[kk] == s {
                                let kk = choose|kk: int| 0 <= kk < q.len() && q[kk] == s;
                                assert(kk < pre_q.len());
                                assert(pre_q[kk] == s);
                            }
                        }
                    }
                    assert forall|k1: int, k2: int|
                        0 <= k1 < q.len() && 0 <= k2 < q.len() && k1 != k2 implies q[k1]
                        != q[k2] by {
                        if k1 < pre_q.len() && k2 < pre_q.len() {
                        } else if k1 == q.len() - 1 {
                            assert(q[k2] == pre_q[k2]);
                        } else {
                            assert(q[k1] == pre_q[k1]);
                        }
                    }
                }
            }
            k = k + 1;
        }
    }

    /// Release a slot that left the window: serialize its chunk where a
    /// save is owed (the chunk was edited since it was last on disk),
    /// unmap the slot, and put it back on the free list. The caller
    /// shrinks the slot's GPU buffers to the minimum capacities.
    fn shrink_and_free_chunk(&mut self, chunk_index: usize) -> (e: Eviction)
        requires
            old(self).wf(),
            chunk_index < old(self).spec_capacity(),
            forall|i: int|
                0 <= i < old(self).spec_capacity() ==> old(self).chunk_indices@[i] != Some(
                    chunk_index,
                ),
            !old(self).pending_jobs@[chunk_index as int],
            forall|k: int|
                0 <= k < old(self).free_chunk_indices@.len() ==> old(self).free_chunk_indices@[k] != chunk_index,
        ensures
            final(self).wf(),
            e.slot == chunk_index,
            old(self).chunks.chunks@[chunk_index as int].needs_save ==> match e.save {
                Some(sr) => {
                    &&& sr.offset == old(self).chunks.chunks@[chunk_index as int].offset
                    &&& sr.data@.len() == TOTAL_CHUNK_SIZE
                    &&& forall|i: int|
                        0 <= i < sr.data@.len() ==> sr.data@[i]
                            == crate::chunk::spec_material_to_u8(
                            old(self).chunks.chunks@[chunk_index as int].blocks@[i].material_type,
                        )
                },
                None => false,
            },
            !old(self).chunks.chunks@[chunk_index as int].needs_save ==> e.save is None,
            final(self).chunks.chunks == old(self).chunks.chunks,
            final(self).chunks.index_offset@ == old(self).chunks.index_offset@.update(
                chunk_index as int,
                crate::chunk_manager::spec_sentinel_offset(),
            ),
            final(self).free_chunk_indices@ == old(self).free_chunk_indices@.push(chunk_index),
            final(self).chunk_indices == old(self).chunk_indices,
            final(self).center_offset == old(self).center_offset,
            final(self).chunks_origin == old(self).chunks_origin,
            final(self).pending_jobs == old(self).pending_jobs,
            final(self).pending_count == old(self).pending_count,
            final(self).dirty_queue == old(self).dirty_queue,
            final(self).dirty_set == old(self).dirty_set,
            final(self).chunks_view_size == old(self).chunks_view_size,
            final(self).biome == old(self).biome,
            final(self).noise == old(self).noise,
            final(self).land_level == old(self).land_level,
    {
        let save: Option<SaveRequest> = if self.chunks.chunks[chunk_index].needs_save {
            let data = self.chunks.chunks[chunk_index].save_bytes();
            Some(SaveRequest { offset: self.chunks.chunks[chunk_index].offset, data })
        } else {
            None
        };
        self.chunks.remove_chunk_from_map(chunk_index);
        self.free_chunk_indices.push(chunk_index);
        proof {
            let f = self.free_chunk_indices@;
            let cap = self.spec_capacity();
            assert forall|k1: int, k2: int|
                0 <= k1 < f.len() && 0 <= k2 < f.len() && k1 != k2 implies #[trigger] f[k1]
                != #[trigger] f[k2] by {}
            assert forall|k: int| 0 <= k < f.len() implies !self.pending_jobs@[(
            #[trigger] f[k]) as int] by {}
            assert forall|k: int, i: int|
                0 <= k < f.len() && 0 <= i < cap implies #[trigger] self.chunk_indices@[i] != Some(
                #[trigger] f[k],
            ) by {}
            assert forall|s2: int|
                0 <= s2 < cap implies ((#[trigger] self.dirty_set@[s2]) <==> exists|kq: int|
                0 <= kq < self.dirty_queue@.len() && self.dirty_queue@[kq] == s2) by {
                assert(self.dirty_set@ == old(self).dirty_set@);
                assert(self.dirty_queue@ == old(self).dirty_queue@);
                if old(self).dirty_set@[s2] {
                    let kq = choose|kq: int|
                        0 <= kq < old(self).dirty_queue@.len() && old(self).dirty_queue@[kq]
                            == s2;
                    assert(self.dirty_queue@[kq] == s2);
                }
                if exists|kq: int|
                    0 <= kq < self.dirty_queue@.len() && self.dirty_queue@[kq] == s2 {
                    let kq = choose|kq: int|
                        0 <= kq < self.dirty_queue@.len() && self.dirty_queue@[kq] == s2;
                    assert(old(self).dirty_queue@[kq] == s2);
                    assert(old(self).dirty_set@[s2]);
                }
            }
            assert(self.chunks.wf());
        }
        Eviction { slot: chunk_index, save }
    }
}

} // verus!

verus! {

impl TerrainGen {
    /// Whether some window cell is mapped to slot `s`.
    fn is_slot_mapped(&self, s: usize) -> (r: bool)
        requires
            self.wf(),
        ensures
            r == exists|i: int|
                0 <= i < self.spec_capacity() && self.chunk_indices@[i] == Some(s),
    {
        let n = self.chunk_indices.len();
        let mut i: usize = 0;
        while i < n
            invariant
                self.wf(),
                n == self.chunk_indices@.len(),
                i <= n,
                forall|j: int| 0 <= j < i ==> self.chunk_indices@[j] != Some(s),
            decreases n - i,
        {
            match self.chunk_indices[i] {
                Some(v) => {
                    if v == s {
                        return true;
                    }
                },
                None => {},
            }
            i = i + 1;
        }
        false
    }

    /// Register one finished job slot: clear its in-flight mark; where
    /// the slot is still mapped, record its chunk's offset in the
    /// spatial index; otherwise evict it. `pre` is the state the
    /// surrounding registration pass started from.
    #[verifier::rlimit(100)]
    fn register_one(&mut self, chunk_index: usize, Ghost(pre): Ghost<TerrainGen>) -> (ev: Option<
        Eviction,
    >)
        requires
            old(self).wf(),
            pre.wf(),
            chunk_index < old(self).spec_capacity(),
            old(self).pending_jobs@[chunk_index as int],
            old(self).pending_count >= 1,
            old(self).chunk_indices == pre.chunk_indices,
            old(self).chunks.chunks@ == pre.chunks.chunks@,
            old(self).spec_capacity() == pre.spec_capacity(),
        ensures
            final(self).wf(),
            final(self).pending_jobs@ == old(self).pending_jobs@.update(
                chunk_index as int,
                false,
            ),
            final(self).pending_count == old(self).pending_count - 1,
            final(self).chunks.chunks@ == old(self).chunks.chunks@,
            final(self).chunk_indices == old(self).chunk_indices,
            final(self).center_offset == old(self).center_offset,
            final(self).chunks_origin == old(self).chunks_origin,
            final(self).chunks_view_size == old(self).chunks_view_size,
            final(self).dirty_queue == old(self).dirty_queue,
            final(self).dirty_set == old(self).dirty_set,
            final(self).biome == old(self).biome,
            final(self).noise == old(self).noise,
            final(self).land_level == old(self).land_level,
            final(self).chunks.index_offset@.len() == old(self).chunks.index_offset@.len(),
            spec_slot_mapped(pre, chunk_index) ==> {
                &&& ev is None
                &&& final(self).free_chunk_indices == old(self).free_chunk_indices
                &&& final(self).chunks.index_offset@[chunk_index as int]
                    == pre.chunks.chunks@[chunk_index as int].offset
                &&& forall|j: int|
                    0 <= j < old(self).chunks.index_offset@.len() && j != chunk_index
                        ==> #[trigger] final(self).chunks.index_offset@[j] == (if old(self).chunks.index_offset@[j] == pre.chunks.chunks@[chunk_index as int].offset {
                        crate::chunk_manager::spec_sentinel_offset()
                    } else {
                        old(self).chunks.index_offset@[j]
                    })
            },
            !spec_slot_mapped(pre, chunk_index) ==> match ev {
                Some(e) => {
                    &&& e.slot == chunk_index
                    &&& (pre.chunks.chunks@[chunk_index as int].needs_save ==> match e.save {
                        Some(sr) => {
                            &&& sr.offset == pre.chunks.chunks@[chunk_index as int].offset
                            &&& sr.data@.len() == TOTAL_CHUNK_SIZE
                            &&& forall|b: int|
                                0 <= b < sr.data@.len() ==> sr.data@[b]
                                    == crate::chunk::spec_material_to_u8(
                                    pre.chunks.chunks@[chunk_index as int].blocks@[b].material_type,
                                )
                        },
                        None => false,
                    })
                    &&& (!pre.chunks.chunks@[chunk_index as int].needs_save ==> e.save is None)
                    &&& final(self).free_chunk_indices@ == old(self).free_chunk_indices@.push(
                        chunk_index,
                    )
                    &&& final(self).chunks.index_offset@ == old(self).chunks.index_offset@.update(
                        chunk_index as int,
                        crate::chunk_manager::spec_sentinel_offset(),
                    )
                },
                None => false,
            },
    {
        self.pending_jobs[chunk_index] = false;
        self.pending_count = self.pending_count - 1;
        let mapped = self.is_slot_mapped(chunk_index);
        proof {
            assert(mapped == spec_slot_mapped(pre, chunk_index));
        }
        if mapped {
            let offset = self.chunks.chunks[chunk_index].offset;
            self.chunks.update_chunk_offset(chunk_index, offset);
            proof {
                assert(self.chunks.chunks@[chunk_index as int] =~= old(self).chunks.chunks@[chunk_index as int]);
                assert(self.chunks.chunks@ =~= old(self).chunks.chunks@);
                let cap = self.spec_capacity();
                assert(self.chunks.wf());
                assert(forall|fk: int|
                    0 <= fk < self.free_chunk_indices@.len() ==> !self.pending_jobs@[(
                    #[trigger] self.free_chunk_indices@[fk]) as int]);
                assert(forall|fk: int, i: int|
                    0 <= fk < self.free_chunk_indices@.len() && 0 <= i < cap
                        ==> #[trigger] self.chunk_indices@[i] != Some(
                        #[trigger] self.free_chunk_indices@[fk],
                    ));
                assert forall|s2: int|
                    0 <= s2 < cap implies ((#[trigger] self.dirty_set@[s2]) <==> exists|kq: int|
                    0 <= kq < self.dirty_queue@.len() && self.dirty_queue@[kq] == s2) by {
                    assert(self.dirty_set@ == old(self).dirty_set@);
                    assert(self.dirty_queue@ == old(self).dirty_queue@);
                    if old(self).dirty_set@[s2] {
                        let kq = choose|kq: int|
                            0 <= kq < old(self).dirty_queue@.len() && old(self).dirty_queue@[kq]
                                == s2;
                        assert(self.dirty_queue@[kq] == s2);
                    }
                    if exists|kq: int|
                        0 <= kq < self.dirty_queue@.len() && self.dirty_queue@[kq] == s2 {
                        let kq = choose|kq: int|
                            0 <= kq < self.dirty_queue@.len() && self.dirty_queue@[kq] == s2;
                        assert(old(self).dirty_queue@[kq] == s2);
                        assert(old(self).dirty_set@[s2]);
                    }
                }
            }
            None
        } else {
            proof {
                assert(forall|fk: int|
                    0 <= fk < self.free_chunk_indices@.len()
                        ==> #[trigger] self.free_chunk_indices@[fk] != chunk_index);
            }
            let e = self.shrink_and_free_chunk(chunk_index);
            Some(e)
        }
    }

    /// Register every finished generation job: clear its in-flight mark,
    /// report its slot for GPU upload and, where the slot is still part
    /// of the window, record the chunk's offset in the spatial index;
    /// a slot the viewer moved away from while its job ran is evicted
    /// instead. Returns the slots to upload and the evictions.
    #[verifier::rlimit(100)]
    #[verifier::spinoff_prover]
    fn process_ready_chunks(&mut self, ready: &Vec<usize>) -> (r: (Vec<usize>, Vec<Eviction>))
        requires
            old(self).wf(),
            forall|k: int|
                0 <= k < ready@.len() ==> (#[trigger] ready@[k]) < old(self).spec_capacity(),
            forall|k1: int, k2: int|
                0 <= k1 < ready@.len() && 0 <= k2 < ready@.len() && k1 != k2
                    ==> #[trigger] ready@[k1] != #[trigger] ready@[k2],
            forall|k: int|
                0 <= k < ready@.len() ==> old(self).pending_jobs@[(#[trigger] ready@[k]) as int],
            ready@.len() <= old(self).pending_count,
        ensures
            final(self).wf(),
            r.0@ == ready@,
            final(self).pending_count == old(self).pending_count - ready@.len(),
            forall|k: int|
                0 <= k < ready@.len() ==> !final(self).pending_jobs@[(#[trigger] ready@[k]) as int],
            r.1@.len() == spec_unmapped_slots(*old(self), ready@).len(),
            forall|e: int|
                0 <= e < r.1@.len() ==> (#[trigger] r.1@[e]).slot == spec_unmapped_slots(
                    *old(self),
                    ready@,
                )[e],
            final(self).free_chunk_indices@ == old(self).free_chunk_indices@
                + spec_unmapped_slots(*old(self), ready@),
            forall|k: int|
                0 <= k < ready@.len() && !spec_slot_mapped(*old(self), #[trigger] ready@[k]) ==> (
                exists|e: int| 0 <= e < r.1@.len() && (#[trigger] r.1@[e]).slot == ready@[k])
                    && final(self).free_chunk_indices@.contains(ready@[k]),
            forall|e: int|
                0 <= e < r.1@.len() ==> !spec_slot_mapped(*old(self), (#[trigger] r.1@[e]).slot)
                    && (exists|k: int| 0 <= k < ready@.len() && ready@[k] == r.1@[e].slot),
            forall|k: int|
                0 <= k < ready@.len() && spec_slot_mapped(*old(self), #[trigger] ready@[k])
                    ==> final(self).chunks.index_offset@[ready@[k] as int] == old(self).chunks.chunks@[ready@[k] as int].offset || (exists|k2: int|
                    0 <= k2 < ready@.len() && k2 != k && old(self).chunks.chunks@[(
                    #[trigger] ready@[k2]) as int].offset == old(self).chunks.chunks@[ready@[k] as int].offset),
            forall|e: int|
                0 <= e < r.1@.len() ==> (#[trigger] r.1@[e]).slot < old(self).spec_capacity() && (
                old(self).chunks.chunks@[r.1@[e].slot as int].needs_save ==> (match r.1@[e].save {
                    Some(sr) => {
                        &&& sr.offset == old(self).chunks.chunks@[r.1@[e].slot as int].offset
                        &&& sr.data@.len() == TOTAL_CHUNK_SIZE
                        &&& forall|b: int|
                            0 <= b < sr.data@.len() ==> sr.data@[b]
                                == crate::chunk::spec_material_to_u8(
                                old(self).chunks.chunks@[r.1@[e].slot as int].blocks@[b].material_type,
                            )
                    },
                    None => false,
                })) && (!old(self).chunks.chunks@[r.1@[e].slot as int].needs_save ==> r.1@[e].save
                    is None),
            final(self).chunks.chunks@ == old(self).chunks.chunks@,
            final(self).chunk_indices == old(self).chunk_indices,
            final(self).center_offset == old(self).center_offset,
            final(self).chunks_origin == old(self).chunks_origin,
            final(self).chunks_view_size == old(self).chunks_view_size,
            final(self).dirty_queue == old(self).dirty_queue,
            final(self).dirty_set == old(self).dirty_set,
            final(self).biome == old(self).biome,
            final(self).noise == old(self).noise,
            final(self).land_level == old(self).land_level,
    {
        let ghost pre = *old(self);
        let ghost mut evict_slots: Seq<usize> = Seq::empty();
        let mut uploads: Vec<usize> = Vec::new();
        let mut evictions: Vec<Eviction> = Vec::new();
        let n = ready.len();
        let mut k: usize = 0;
        while k < n
            invariant
                self.wf(),
                old(self).wf(),
                n == ready@.len(),
                k <= n,
                self.spec_capacity() == old(self).spec_capacity(),
                pre == *old(self),
                forall|kk: int|
                    0 <= kk < n ==> (#[trigger] ready@[kk]) < self.spec_capacity(),
                forall|k1: int, k2: int|
                    0 <= k1 < n && 0 <= k2 < n && k1 != k2 ==> #[trigger] ready@[k1]
                        != #[trigger] ready@[k2],
                forall|kk: int|
                    k <= kk < n ==> self.pending_jobs@[(#[trigger] ready@[kk]) as int],
                forall|kk: int|
                    0 <= kk < k ==> !self.pending_jobs@[(#[trigger] ready@[kk]) as int],
                n <= old(self).pending_count,
                self.pending_count == old(self).pending_count - k,
                uploads@ == ready@.take(k as int),
                evict_slots == spec_unmapped_slots(pre, ready@.take(k as int)),
                evictions@.len() == evict_slots.len(),
                forall|e: int|
                    0 <= e < evictions@.len() ==> (#[trigger] evictions@[e]).slot
                        == evict_slots[e],
                self.free_chunk_indices@ == old(self).free_chunk_indices@ + evict_slots,
                forall|kk: int|
                    0 <= kk < k && spec_slot_mapped(*old(self), #[trigger] ready@[kk])
                        ==> self.chunks.index_offset@[ready@[kk] as int] == old(self).chunks.chunks@[ready@[kk] as int].offset || (exists|k2: int|
                        0 <= k2 < n && k2 != kk && old(self).chunks.chunks@[(
                        #[trigger] ready@[k2]) as int].offset == old(self).chunks.chunks@[ready@[kk] as int].offset),
                forall|e: int|
                    0 <= e < evictions@.len() ==> (#[trigger] evictions@[e]).slot
                        < self.spec_capacity() && (old(self).chunks.chunks@[evictions@[e].slot as int].needs_save ==> (
                    match evictions@[e].save {
                        Some(sr) => {
                            &&& sr.offset == old(self).chunks.chunks@[evictions@[e].slot as int].offset
                            &&& sr.data@.len() == TOTAL_CHUNK_SIZE
                            &&& forall|b: int|
                                0 <= b < sr.data@.len() ==> sr.data@[b]
                                    == crate::chunk::spec_material_to_u8(
                                    old(self).chunks.chunks@[evictions@[e].slot as int].blocks@[b].material_type,
                                )
                        },
                        None => false,
                    })) && (!old(self).chunks.chunks@[evictions@[e].slot as int].needs_save
                        ==> evictions@[e].save is None),
                self.chunks.chunks@ == old(self).chunks.chunks@,
                self.chunk_indices == old(self).chunk_indices,
                self.center_offset == old(self).center_offset,
                self.chunks_origin == old(self).chunks_origin,
                self.chunks_view_size == old(self).chunks_view_size,
                self.dirty_queue == old(self).dirty_queue,
                self.dirty_set == old(self).dirty_set,
                self.biome == old(self).biome,
                self.noise == old(self).noise,
                self.land_level == old(self).land_level,
            decreases n - k,
        {
            let chunk_index = ready[k];
            let ghost index_offset_before = self.chunks.index_offset@;
            let ghost pend_before = self.pending_jobs@;
            let ev = self.register_one(chunk_index, Ghost(pre));
            uploads.push(chunk_index);
            proof {
                assert(uploads@ =~= ready@.take(k as int + 1));
                assert(ready@.take(k as int + 1) =~= ready@.take(k as int).push(chunk_index));
                lemma_unmapped_slots_push(pre, ready@.take(k as int), chunk_index);
            }
            match ev {
                Some(e) => {
                    evictions.push(e);
                    proof {
                        evict_slots = evict_slots.push(chunk_index);
                        assert(self.free_chunk_indices@ =~= old(self).free_chunk_indices@
                            + evict_slots);
                        assert forall|kk: int|
                            0 <= kk < k + 1 && spec_slot_mapped(pre, #[trigger] ready@[kk])
                            implies self.chunks.index_offset@[ready@[kk] as int]
                            == pre.chunks.chunks@[ready@[kk] as int].offset || (exists|k2: int|
                            0 <= k2 < n && k2 != kk && pre.chunks.chunks@[(
                            #[trigger] ready@[k2]) as int].offset
                                == pre.chunks.chunks@[ready@[kk] as int].offset) by {
                            if kk < k {
                                assert(ready@[kk] != chunk_index);
                                assert(self.chunks.index_offset@[ready@[kk] as int]
                                    == index_offset_before[ready@[kk] as int]);
                            }
                        }
                    }
                },
                None => {
                    proof {
                        assert(evict_slots == spec_unmapped_slots(
                            pre,
                            ready@.take(k as int + 1),
                        ));
                        assert forall|kk: int|
                            0 <= kk < k + 1 && spec_slot_mapped(pre, #[trigger] ready@[kk])
                            implies self.chunks.index_offset@[ready@[kk] as int]
                            == pre.chunks.chunks@[ready@[kk] as int].offset || (exists|k2: int|
                            0 <= k2 < n && k2 != kk && pre.chunks.chunks@[(
                            #[trigger] ready@[k2]) as int].offset
                                == pre.chunks.chunks@[ready@[kk] as int].offset) by {
                            if kk < k {
                                if index_offset_before[ready@[kk] as int]
                                    == pre.chunks.chunks@[ready@[kk] as int].offset
                                    && self.chunks.index_offset@[ready@[kk] as int]
                                    != index_offset_before[ready@[kk] as int] {
                                    assert(pre.chunks.chunks@[ready@[kk] as int].offset
                                        == pre.chunks.chunks@[chunk_index as int].offset);
                                    assert(ready@[k as int] == chunk_index);
                                }
                            }
                        }
                    }
                },
            }
            k = k + 1;
        }
        proof {
            assert(ready@.take(n as int) =~= ready@);
            let unm = spec_unmapped_slots(pre, ready@);
            assert(evict_slots == unm);
            assert forall|k2: int|
                0 <= k2 < ready@.len() && !spec_slot_mapped(pre, #[trigger] ready@[k2]) implies (
            exists|e: int| 0 <= e < evictions@.len() && (#[trigger] evictions@[e]).slot
                == ready@[k2]) && self.free_chunk_indices@.contains(ready@[k2]) by {
                lemma_unmapped_slots_complete(pre, ready@, k2);
                let j = choose|j: int| 0 <= j < unm.len() && unm[j] == ready@[k2];
                assert(evictions@[j].slot == ready@[k2]);
                assert(self.free_chunk_indices@[old(self).free_chunk_indices@.len() + j]
                    == ready@[k2]);
            }
            assert forall|e: int|
                0 <= e < evictions@.len() implies !spec_slot_mapped(
                pre,
                (#[trigger] evictions@[e]).slot,
            ) && (exists|k2: int| 0 <= k2 < ready@.len() && ready@[k2] == evictions@[e].slot) by {
                assert(evictions@[e].slot == unm[e]);
                lemma_unmapped_slots_sound(pre, ready@, e);
                let k2 = choose|k2: int| 0 <= k2 < ready@.len() && ready@[k2] == unm[e];
                assert(ready@[k2] == evictions@[e].slot);
            }
        }
        (uploads, evictions)
    }

    /// Remesh up to `max_per_frame` chunks from the dirty queue, oldest
    /// first, clearing their dirty state; returns the slots whose meshes
    /// changed and must be re-uploaded.
    fn process_dirty_chunks(&mut self, max_per_frame: usize) -> (uploads: Vec<usize>)
        requires
            old(self).wf(),
        ensures
            final(self).wf(),
            uploads@ == spec_dirty_uploads(
                old(self).dirty_queue@,
                old(self).chunks.chunks@,
                max_per_frame as int,
            ),
            uploads@.len() <= max_per_frame,
            final(self).dirty_queue@ == old(self).dirty_queue@.skip(
                spec_dirty_pops(
                    old(self).dirty_queue@,
                    old(self).chunks.chunks@,
                    max_per_frame as int,
                ),
            ),
            forall|u: int|
                0 <= u < uploads@.len() ==> (#[trigger] uploads@[u]) < old(self).spec_capacity()
                    && !final(self).chunks.chunks@[uploads@[u] as int].dirty && final(self).chunks.chunks@[uploads@[u] as int].dirty_y_range is None,
            forall|u: int|
                0 <= u < uploads@.len() ==> crate::chunk::spec_remesh_relation(
                    old(self).chunks.chunks@[(#[trigger] uploads@[u]) as int],
                    crate::chunk::Chunk {
                        dirty: old(self).chunks.chunks@[uploads@[u] as int].dirty,
                        ..final(self).chunks.chunks@[uploads@[u] as int]
                    },
                    old(self).chunks.chunks@[uploads@[u] as int].dirty_y_range,
                ),
            forall|sl: int|
                0 <= sl < old(self).spec_capacity() && !(exists|u: int|
                    0 <= u < uploads@.len() && uploads@[u] == sl) ==> #[trigger] final(self).chunks.chunks@[sl] == old(self).chunks.chunks@[sl],
            final(self).chunk_indices == old(self).chunk_indices,
            final(self).free_chunk_indices == old(self).free_chunk_indices,
            final(self).center_offset == old(self).center_offset,
            final(self).chunks_origin == old(self).chunks_origin,
            final(self).chunks_view_size == old(self).chunks_view_size,
            final(self).pending_jobs == old(self).pending_jobs,
            final(self).pending_count == old(self).pending_count,
            final(self).chunks.index_offset == old(self).chunks.index_offset,
            final(self).biome == old(self).biome,
            final(self).noise == old(self).noise,
            final(self).land_level == old(self).land_level,
            final(self).chunks.chunks@.len() == old(self).chunks.chunks@.len(),
    {
        let ghost oldq = old(self).dirty_queue@;
        let ghost oldc = old(self).chunks.chunks@;
        let ghost b = max_per_frame as int;
        let mut uploads: Vec<usize> = Vec::new();
        let mut processed: usize = 0;
        let ghost mut popped: int = 0;
        proof {
            assert(oldq.skip(0) =~= oldq);
        }
        while processed < max_per_frame
            invariant_except_break
                forall|u: int|
                    0 <= u < uploads@.len() ==> exists|jj: int|
                        0 <= jj < popped && oldq[jj] == #[trigger] uploads@[u],
            invariant
                self.wf(),
                old(self).wf(),
                processed <= max_per_frame,
                self.spec_capacity() == old(self).spec_capacity(),
                oldq == old(self).dirty_queue@,
                oldc == old(self).chunks.chunks@,
                b == max_per_frame as int,
                0 <= popped <= oldq.len(),
                self.dirty_queue@ == oldq.skip(popped),
                processed == uploads@.len(),
                spec_dirty_uploads(oldq, oldc, b) == uploads@ + spec_dirty_uploads(
                    oldq.skip(popped),
                    oldc,
                    b - processed,
                ),
                spec_dirty_pops(oldq, oldc, b) == popped + spec_dirty_pops(
                    oldq.skip(popped),
                    oldc,
                    b - processed,
                ),
                forall|u: int|
                    0 <= u < uploads@.len() ==> crate::chunk::spec_remesh_relation(
                        oldc[(#[trigger] uploads@[u]) as int],
                        crate::chunk::Chunk {
                            dirty: oldc[uploads@[u] as int].dirty,
                            ..self.chunks.chunks@[uploads@[u] as int]
                        },
                        oldc[uploads@[u] as int].dirty_y_range,
                    ),
                forall|sl: int|
                    0 <= sl < self.spec_capacity() && !(exists|u: int|
                        0 <= u < uploads@.len() && uploads@[u] == sl) ==> #[trigger] self.chunks.chunks@[sl] == oldc[sl],
                forall|u: int|
                    0 <= u < uploads@.len() ==> (#[trigger] uploads@[u]) < self.spec_capacity()
                        && !self.chunks.chunks@[uploads@[u] as int].dirty
                        && self.chunks.chunks@[uploads@[u] as int].dirty_y_range is None,
                forall|u1: int, u2: int|
                    0 <= u1 < uploads@.len() && 0 <= u2 < uploads@.len() && u1 != u2
                        ==> #[trigger] uploads@[u1] != #[trigger] uploads@[u2],
                self.chunk_indices == old(self).chunk_indices,
                self.free_chunk_indices == old(self).free_chunk_indices,
                self.center_offset == old(self).center_offset,
                self.chunks_origin == old(self).chunks_origin,
                self.chunks_view_size == old(self).chunks_view_size,
                self.pending_jobs == old(self).pending_jobs,
                self.pending_count == old(self).pending_count,
                self.chunks.index_offset == old(self).chunks.index_offset,
                self.biome == old(self).biome,
                self.noise == old(self).noise,
                self.land_level == old(self).land_level,
                self.chunks.chunks@.len() == old(self).chunks.chunks@.len(),
            ensures
                b - processed <= 0 || oldq.skip(popped).len() == 0,
            decreases max_per_frame - processed + self.dirty_queue@.len(),
        {
            if self.dirty_queue.len() == 0 {
                break ;
            }
            proof {
                assert(oldq.skip(popped).drop_first() =~= oldq.skip(popped + 1));
                assert(oldq.skip(popped)[0] == oldq[popped]);
            }
            let ghost pre_q = self.dirty_queue@;
            let ghost pre_set0 = self.dirty_set@;
            let idx = self.dirty_queue.remove(0);
            self.dirty_set[idx] = false;
            let ghost pre_set = pre_set0.update(idx as int, false);
            let ghost mid_set = self.dirty_set@;
            proof {
                assert(self.dirty_queue@ =~= pre_q.drop_first());
            }
            proof {
                assert(idx == oldq[popped]);
                assert(!(exists|u: int| 0 <= u < uploads@.len() && uploads@[u] == idx)) by {
                    if exists|u: int| 0 <= u < uploads@.len() && uploads@[u] == idx {
                        let u = choose|u: int| 0 <= u < uploads@.len() && uploads@[u] == idx;
                        let jj = choose|jj: int| 0 <= jj < popped && oldq[jj] == uploads@[u];
                        assert(oldq[jj] == oldq[popped]);
                        assert(false);
                    }
                }
                assert(self.chunks.chunks@[idx as int] == oldc[idx as int]);
            }
            let is_chunk_dirty = self.chunks.chunks[idx].dirty;
            if is_chunk_dirty {
                let y_range = self.chunks.chunks[idx].dirty_y_range();
                let biome = self.biome;
                let ghost pre_chunk = self.chunks.chunks@[idx as int];
                let ghost chunks_before = self.chunks.chunks@;
                let ghost uploads_before = uploads@;
                self.chunks.chunks[idx].update_mesh(biome, y_range);
                self.chunks.chunks[idx].dirty = false;
                uploads.push(idx);
                processed = processed + 1;
                proof {
                    popped = popped + 1;
                    assert(pre_chunk == oldc[idx as int]);
                    assert(crate::chunk::spec_remesh_relation(
                        oldc[idx as int],
                        crate::chunk::Chunk {
                            dirty: oldc[idx as int].dirty,
                            ..self.chunks.chunks@[idx as int]
                        },
                        oldc[idx as int].dirty_y_range,
                    ));
                    assert(spec_dirty_uploads(oldq, oldc, b) == uploads@ + spec_dirty_uploads(
                        oldq.skip(popped),
                        oldc,
                        b - processed,
                    )) by {
                        assert(uploads@ =~= uploads_before.push(idx));
                        assert(uploads_before + (seq![idx] + spec_dirty_uploads(
                            oldq.skip(popped),
                            oldc,
                            b - processed,
                        )) =~= uploads@ + spec_dirty_uploads(oldq.skip(popped), oldc, b - processed));
                    }
                    assert forall|u: int|
                        0 <= u < uploads@.len() implies exists|jj: int|
                        0 <= jj < popped && oldq[jj] == #[trigger] uploads@[u] by {
                        if u < uploads_before.len() {
                            let jj = choose|jj: int|
                                0 <= jj < popped - 1 && oldq[jj] == uploads_before[u];
                            assert(oldq[jj] == uploads@[u]);
                        } else {
                            assert(oldq[popped - 1] == uploads@[u]);
                        }
                    }
                    assert forall|u: int|
                        0 <= u < uploads@.len() implies crate::chunk::spec_remesh_relation(
                        oldc[(#[trigger] uploads@[u]) as int],
                        crate::chunk::Chunk {
                            dirty: oldc[uploads@[u] as int].dirty,
                            ..self.chunks.chunks@[uploads@[u] as int]
                        },
                        oldc[uploads@[u] as int].dirty_y_range,
                    ) by {
                        if u < uploads_before.len() {
                            assert(uploads@[u] == uploads_before[u]);
                            assert(uploads@[u] != idx);
                            assert(self.chunks.chunks@[uploads@[u] as int]
                                == chunks_before[uploads@[u] as int]);
                        }
                    }
                    assert forall|sl: int|
                        0 <= sl < self.spec_capacity() && !(exists|u: int|
                            0 <= u < uploads@.len() && uploads@[u] == sl) implies
                        #[trigger] self.chunks.chunks@[sl] == oldc[sl] by {
                        assert(uploads@[uploads@.len() - 1] == idx);
                        assert(sl != idx as int);
                        if exists|u: int|
                            0 <= u < uploads_before.len() && uploads_before[u] == sl {
                            let u = choose|u: int|
                                0 <= u < uploads_before.len() && uploads_before[u] == sl;
                            assert(uploads@[u] == sl);
                            assert(false);
                        }
                        assert(chunks_before[sl] == oldc[sl]);
                        assert(self.chunks.chunks@[sl] == chunks_before[sl]);
                    }
                }
            } else {
                proof {
                    popped = popped + 1;
                }
            }
            proof {
                let cap = self.spec_capacity();
                assert(self.chunks.wf());
                assert(self.chunks.chunks@.len() == cap);
                assert(forall|kk: int|
                    0 <= kk < self.dirty_queue@.len() ==> (#[trigger] self.dirty_queue@[kk])
                        < cap);
                let q = self.dirty_queue@;
                assert(q =~= pre_q.drop_first());
                assert forall|k1: int, k2: int|
                    0 <= k1 < q.len() && 0 <= k2 < q.len() && k1 != k2 implies #[trigger] q[k1]
                    != #[trigger] q[k2] by {
                    assert(q[k1] == pre_q[k1 + 1]);
                    assert(q[k2] == pre_q[k2 + 1]);
                }
                assert(self.dirty_set@ == mid_set);
                assert forall|s: int| 0 <= s < cap implies ((#[trigger] self.dirty_set@[s]) <==>
                    exists|kk: int| 0 <= kk < q.len() && q[kk] == s) by {
                    if s == idx as int {
                        assert(!self.dirty_set@[s]);
                        assert forall|kk: int| 0 <= kk < q.len() implies q[kk] != s by {
                            assert(q[kk] == pre_q[kk + 1]);
                            assert(pre_q[0] == idx);
                        }
                    } else {
                        assert(self.dirty_set@[s] == pre_set[s]);
                        if self.dirty_set@[s] {
                            let kk = choose|kk: int| 0 <= kk < pre_q.len() && pre_q[kk] == s;
                            assert(pre_q[kk] == s && kk != 0);
                            assert(q[kk - 1] == s);
                        }
                        if exists|kk: int| 0 <= kk < q.len() && q[kk] == s {
                            let kk = choose|kk: int| 0 <= kk < q.len() && q[kk] == s;
                            assert(pre_q[kk + 1] == s);
                        }
                    }
                }
                assert(forall|kk: int, i: int|
                    0 <= kk < self.free_chunk_indices@.len() && 0 <= i < cap
                        ==> #[trigger] self.chunk_indices@[i] != Some(
                        #[trigger] self.free_chunk_indices@[kk],
                    ));
                assert(forall|kk: int|
                    0 <= kk < self.free_chunk_indices@.len() ==> !self.pending_jobs@[(
                    #[trigger] self.free_chunk_indices@[kk]) as int]);
            }
        }
        uploads
    }
}

} // verus!

verus! {

/// Distinct window cells have distinct offsets.
pub proof fn lemma_cell_offset_injective(origin: Vec3i, vs: int, i: int, j: int)
    requires
        2 <= vs <= MAX_VIEW_SIZE,
        -1000600 <= origin.x <= 1000600,
        -1000600 <= origin.z <= 1000600,
        0 <= i < vs * vs,
        0 <= j < vs * vs,
        i != j,
    ensures
        spec_cell_offset(origin, vs, i) != spec_cell_offset(origin, vs, j),
{
    vstd::arithmetic::div_mod::lemma_fundamental_div_mod(i, vs);
    vstd::arithmetic::div_mod::lemma_mod_bound(i, vs);
    vstd::arithmetic::div_mod::lemma_fundamental_div_mod(j, vs);
    vstd::arithmetic::div_mod::lemma_mod_bound(j, vs);
    assert(0 <= i / vs < vs) by (nonlinear_arith)
        requires
            i == vs * (i / vs) + i % vs,
            0 <= i % vs < vs,
            0 <= i < vs * vs,
    ;
    assert(0 <= j / vs < vs) by (nonlinear_arith)
        requires
            j == vs * (j / vs) + j % vs,
            0 <= j % vs < vs,
            0 <= j < vs * vs,
    ;
    if spec_cell_offset(origin, vs, i) == spec_cell_offset(origin, vs, j) {
        assert(((origin.x + i % vs) as i32) as int == origin.x + i % vs);
        assert(((origin.x + j % vs) as i32) as int == origin.x + j % vs);
        assert(((origin.z + i / vs) as i32) as int == origin.z + i / vs);
        assert(((origin.z + j / vs) as i32) as int == origin.z + j / vs);
        assert(i % vs == j % vs && i / vs == j / vs);
        assert(i == j);
    }
}

/// A window offset is the offset of its own cell.
pub proof fn lemma_cell_of_offset_inverse(origin: Vec3i, vs: int, off: Vec3i)
    requires
        2 <= vs <= MAX_VIEW_SIZE,
        -1000600 <= origin.x <= 1000600,
        -1000600 <= origin.z <= 1000600,
        spec_chunk_in_bounds(origin, vs, off),
        off.y == 0,
    ensures
        0 <= spec_cell_of_offset(origin, vs, off) < vs * vs,
        spec_cell_offset(origin, vs, spec_cell_of_offset(origin, vs, off)) == off,
{
    let px = off.x - origin.x;
    let pz = off.z - origin.z;
    let c = pz * vs + px;
    assert(0 <= c < vs * vs) by (nonlinear_arith)
        requires
            c == pz * vs + px,
            0 <= px < vs,
            0 <= pz < vs,
    ;
    vstd::arithmetic::div_mod::lemma_fundamental_div_mod_converse(c, vs, pz, px);
    assert(c % vs == px && c / vs == pz);
    assert(spec_cell_offset(origin, vs, c) =~= off);
}

} // verus!

verus! {

impl TerrainGen {
    /// Move the window to a new origin: every mapped slot whose offset
    /// still falls inside the new window is re-mapped to its new cell;
    /// every other mapped slot without a job in flight is evicted.
    /// Slots with in-flight jobs are left alone and picked up when their
    /// job completes. Returns the evictions.
    #[verifier::rlimit(100)]
    fn recenter(&mut self, new_center: Vec3i, new_origin: Vec3i) -> (evictions: Vec<Eviction>)
        requires
            old(self).wf(),
            -1000000 <= new_center.x <= 1000000,
            -1000000 <= new_center.z <= 1000000,
            new_center.y == 0,
            new_origin == spec_origin_for(new_center, old(self).chunks_view_size as int),
        ensures
            final(self).wf(),
            final(self).center_offset == new_center,
            final(self).chunks_origin == new_origin,
            final(self).chunks.chunks@ == old(self).chunks.chunks@,
            final(self).chunks_view_size == old(self).chunks_view_size,
            final(self).pending_jobs == old(self).pending_jobs,
            final(self).pending_count == old(self).pending_count,
            final(self).dirty_queue == old(self).dirty_queue,
            final(self).dirty_set == old(self).dirty_set,
            final(self).biome == old(self).biome,
            final(self).noise == old(self).noise,
            final(self).land_level == old(self).land_level,
            forall|i: int|
                0 <= i < old(self).spec_capacity() && (#[trigger] old(self).chunk_indices@[i])
                    is Some && spec_chunk_in_bounds(
                    new_origin,
                    old(self).chunks_view_size as int,
                    spec_cell_offset(old(self).chunks_origin, old(self).chunks_view_size as int, i),
                ) ==> final(self).chunk_indices@[spec_cell_of_offset(
                    new_origin,
                    old(self).chunks_view_size as int,
                    spec_cell_offset(old(self).chunks_origin, old(self).chunks_view_size as int, i),
                )] == old(self).chunk_indices@[i],
            forall|i: int|
                0 <= i < old(self).spec_capacity() ==> ((#[trigger] old(self).chunk_indices@[i])
                    matches Some(sl) ==> (!spec_chunk_in_bounds(
                    new_origin,
                    old(self).chunks_view_size as int,
                    spec_cell_offset(old(self).chunks_origin, old(self).chunks_view_size as int, i),
                ) && !old(self).pending_jobs@[sl as int] ==> (exists|e: int|
                    0 <= e < evictions@.len() && (#[trigger] evictions@[e]).slot == sl))),
            final(self).free_chunk_indices@.len() == old(self).free_chunk_indices@.len()
                + evictions@.len(),
            forall|fk: int|
                0 <= fk < old(self).free_chunk_indices@.len() ==> #[trigger] final(self).free_chunk_indices@[fk] == old(self).free_chunk_indices@[fk],
            forall|e: int|
                0 <= e < evictions@.len() ==> final(self).free_chunk_indices@[old(self).free_chunk_indices@.len() + e] == (#[trigger] evictions@[e]).slot,
            forall|e: int|
                0 <= e < evictions@.len() ==> final(self).chunks.index_offset@[(
                #[trigger] evictions@[e]).slot as int]
                    == crate::chunk_manager::spec_sentinel_offset(),
            forall|sl: int|
                0 <= sl < old(self).spec_capacity() && !(exists|e: int|
                    0 <= e < evictions@.len() && (#[trigger] evictions@[e]).slot == sl) ==> final(self).chunks.index_offset@[sl] == old(self).chunks.index_offset@[sl],
            forall|e: int|
                0 <= e < evictions@.len() ==> (#[trigger] evictions@[e]).slot < old(self).spec_capacity() && (old(self).chunks.chunks@[evictions@[e].slot as int].needs_save ==> (
                match evictions@[e].save {
                    Some(sr) => {
                        &&& sr.offset == old(self).chunks.chunks@[evictions@[e].slot as int].offset
                        &&& sr.data@.len() == TOTAL_CHUNK_SIZE
                        &&& forall|b: int|
                            0 <= b < sr.data@.len() ==> sr.data@[b]
                                == crate::chunk::spec_material_to_u8(
                                old(self).chunks.chunks@[evictions@[e].slot as int].blocks@[b].material_type,
                            )
                    },
                    None => false,
                })) && (!old(self).chunks.chunks@[evictions@[e].slot as int].needs_save
                    ==> evictions@[e].save is None),
    {
        let ghost pre = *old(self);
        let ghost old_origin = self.chunks_origin;
        let vs = self.chunks_view_size;
        let cap = self.chunk_indices.len();

        let mut pairs_slot: Vec<usize> = Vec::new();
        let mut pairs_off: Vec<Vec3i> = Vec::new();
        let ghost mut src_cells: Seq<int> = Seq::empty();
        let mut i: usize = 0;
        while i < cap
            invariant
                self.wf(),
                *self == pre,
                old_origin == self.chunks_origin,
                vs == self.chunks_view_size,
                cap == self.chunk_indices@.len(),
                cap == self.spec_capacity(),
                i <= cap,
                pairs_slot@.len() == pairs_off@.len(),
                pairs_slot@.len() == src_cells.len(),
                forall|k: int|
                    0 <= k < src_cells.len() ==> 0 <= #[trigger] src_cells[k] < i,
                forall|k1: int, k2: int|
                    0 <= k1 < src_cells.len() && 0 <= k2 < src_cells.len() && k1 != k2
                        ==> #[trigger] src_cells[k1] != #[trigger] src_cells[k2],
                forall|k: int|
                    0 <= k < src_cells.len() ==> pre.chunk_indices@[#[trigger] src_cells[k]]
                        == Some(pairs_slot@[k]),
                forall|k: int|
                    0 <= k < src_cells.len() ==> #[trigger] pairs_off@[k] == spec_cell_offset(
                        old_origin,
                        vs as int,
                        src_cells[k],
                    ),
                forall|k: int|
                    0 <= k < pairs_off@.len() ==> offset_in_range(#[trigger] pairs_off@[k])
                        && (#[trigger] pairs_off@[k]).y == 0,
                forall|j: int|
                    0 <= j < i && (#[trigger] pre.chunk_indices@[j]) is Some ==> exists|kk: int|
                        0 <= kk < src_cells.len() && src_cells[kk] == j,
            decreases cap - i,
        {
            match self.chunk_indices[i] {
                Some(s) => {
                    let off = self.get_chunk_offset(i);
                    pairs_slot.push(s);
                    pairs_off.push(off);
                    proof {
                        let prev_cells = src_cells;
                        src_cells = src_cells.push(i as int);
                        assert(src_cells[src_cells.len() - 1] == i as int);
                        assert forall|j: int|
                            0 <= j < i + 1 && (#[trigger] pre.chunk_indices@[j]) is Some implies
                            exists|kk: int| 0 <= kk < src_cells.len() && src_cells[kk] == j by {
                            if j < i {
                                let kk = choose|kk: int|
                                    0 <= kk < prev_cells.len() && prev_cells[kk] == j;
                                assert(src_cells[kk] == j);
                            }
                        }
                    }
                },
                None => {
                    proof {
                        assert(pre.chunk_indices@[i as int] is None);
                    }
                },
            }
            i = i + 1;
        }

        proof {
            assert forall|kk: int| 0 <= kk < src_cells.len() implies (#[trigger] pairs_slot@[kk])
                < cap by {
                assert(pre.chunk_indices@[src_cells[kk]] == Some(pairs_slot@[kk]));
            }
            assert forall|k1: int, k2: int|
                0 <= k1 < src_cells.len() && 0 <= k2 < src_cells.len() && k1 != k2 implies
                #[trigger] pairs_slot@[k1] != #[trigger] pairs_slot@[k2] by {
                assert(pre.chunk_indices@[src_cells[k1]] == Some(pairs_slot@[k1]));
                assert(pre.chunk_indices@[src_cells[k2]] == Some(pairs_slot@[k2]));
            }
            assert forall|k1: int, k2: int|
                0 <= k1 < src_cells.len() && 0 <= k2 < src_cells.len() && k1 != k2 implies
                #[trigger] pairs_off@[k1] != #[trigger] pairs_off@[k2] by {
                lemma_cell_offset_injective(old_origin, vs as int, src_cells[k1], src_cells[k2]);
            }
            assert forall|kk: int, fj: int|
                0 <= kk < src_cells.len() && 0 <= fj < self.free_chunk_indices@.len() implies
                #[trigger] self.free_chunk_indices@[fj] != #[trigger] pairs_slot@[kk] by {
                assert(pre.chunk_indices@[src_cells[kk]] == Some(pairs_slot@[kk]));
                assert(pre.chunk_indices@[src_cells[kk]] != Some(pre.free_chunk_indices@[fj]));
            }
        }

        self.center_offset = new_center;
        self.chunks_origin = new_origin;
        let mut fresh: Vec<Option<usize>> = Vec::new();
        let mut f: usize = 0;
        while f < cap
            invariant
                f <= cap,
                fresh@.len() == f,
                forall|j: int| 0 <= j < f ==> fresh@[j] is None,
            decreases cap - f,
        {
            fresh.push(None);
            f = f + 1;
        }
        self.chunk_indices = fresh;
        proof {
            assert(forall|j: int| 0 <= j < cap ==> (#[trigger] self.chunk_indices@[j]) is None);
            assert(forall|j: int|
                0 <= j < cap ==> ((#[trigger] self.chunk_indices@[j]) matches Some(s2) ==> s2
                    < cap));
            assert(forall|j1: int, j2: int|
                0 <= j1 < cap && 0 <= j2 < cap && j1 != j2 && (
                #[trigger] self.chunk_indices@[j1]) is Some ==> self.chunk_indices@[j1]
                    != #[trigger] self.chunk_indices@[j2]);
            assert(forall|fk: int, j: int|
                0 <= fk < self.free_chunk_indices@.len() && 0 <= j < cap
                    ==> #[trigger] self.chunk_indices@[j] != Some(
                    #[trigger] self.free_chunk_indices@[fk],
                ));
            assert(-1000600 <= new_origin.x <= 1000600 && -1000600 <= new_origin.z <= 1000600
                && new_origin.y == 0);
            assert(self.chunks.wf());
            assert(self.chunks.chunks@.len() == self.spec_capacity());
            assert(self.chunk_indices@.len() == self.spec_capacity());
            assert(self.pending_jobs@.len() == self.spec_capacity());
            assert(self.dirty_set@.len() == self.spec_capacity());
            assert(forall|kk: int|
                0 <= kk < self.free_chunk_indices@.len() ==> (
                #[trigger] self.free_chunk_indices@[kk]) < self.spec_capacity());
            assert(forall|k1: int, k2: int|
                0 <= k1 < self.free_chunk_indices@.len() && 0 <= k2
                    < self.free_chunk_indices@.len() && k1 != k2
                    ==> #[trigger] self.free_chunk_indices@[k1]
                    != #[trigger] self.free_chunk_indices@[k2]);
            assert(forall|kk: int|
                0 <= kk < self.free_chunk_indices@.len() ==> !self.pending_jobs@[(
                #[trigger] self.free_chunk_indices@[kk]) as int]);
            assert(forall|kk: int|
                0 <= kk < self.dirty_queue@.len() ==> (#[trigger] self.dirty_queue@[kk])
                    < self.spec_capacity());
            assert(forall|k1: int, k2: int|
                0 <= k1 < self.dirty_queue@.len() && 0 <= k2 < self.dirty_queue@.len() && k1 != k2
                    ==> #[trigger] self.dirty_queue@[k1] != #[trigger] self.dirty_queue@[k2]);
            assert forall|s2: int|
                0 <= s2 < self.spec_capacity() implies ((#[trigger] self.dirty_set@[s2]) <==>
                exists|kk: int| 0 <= kk < self.dirty_queue@.len() && self.dirty_queue@[kk] == s2)
                by {
                assert(self.dirty_set@ == pre.dirty_set@);
                assert(self.dirty_queue@ == pre.dirty_queue@);
                if pre.dirty_set@[s2] {
                    let kk = choose|kk: int|
                        0 <= kk < pre.dirty_queue@.len() && pre.dirty_queue@[kk] == s2;
                    assert(self.dirty_queue@[kk] == s2);
                }
                if exists|kk: int|
                    0 <= kk < self.dirty_queue@.len() && self.dirty_queue@[kk] == s2 {
                    let kk = choose|kk: int|
                        0 <= kk < self.dirty_queue@.len() && self.dirty_queue@[kk] == s2;
                    assert(pre.dirty_queue@[kk] == s2);
                    assert(pre.dirty_set@[s2]);
                }
            }
            assert(self.pending_count <= MAX_JOBS_IN_FLIGHT);
            assert(self.biome.wf());
            assert(self.land_level < CHUNK_Y_SIZE);
            assert(self.wf());
        }

        let n_pairs = pairs_slot.len();
        let mut evictions: Vec<Eviction> = Vec::new();
        let ghost mut evicted: Seq<usize> = Seq::empty();
        let mut k: usize = 0;
        while k < n_pairs
            invariant
                self.wf(),
                k <= n_pairs,
                vs == self.chunks_view_size,
                cap == self.chunk_indices@.len(),
                cap == self.spec_capacity(),
                n_pairs == pairs_slot@.len(),
                n_pairs == pairs_off@.len(),
                self.center_offset == new_center,
                self.chunks_origin == new_origin,
                -1000600 <= new_origin.x <= 1000600,
                -1000600 <= new_origin.z <= 1000600,
                self.chunks.chunks@ == pre.chunks.chunks@,
                self.pending_jobs == pre.pending_jobs,
                self.pending_count == pre.pending_count,
                self.dirty_queue == pre.dirty_queue,
                self.dirty_set == pre.dirty_set,
                self.biome == pre.biome,
                self.noise == pre.noise,
                self.land_level == pre.land_level,
                self.chunks_view_size == pre.chunks_view_size,
                forall|k1: int, k2: int|
                    0 <= k1 < n_pairs && 0 <= k2 < n_pairs && k1 != k2
                        ==> #[trigger] pairs_slot@[k1] != #[trigger] pairs_slot@[k2],
                forall|k1: int, k2: int|
                    0 <= k1 < n_pairs && 0 <= k2 < n_pairs && k1 != k2
                        ==> #[trigger] pairs_off@[k1] != #[trigger] pairs_off@[k2],
                forall|kk: int|
                    0 <= kk < n_pairs ==> (#[trigger] pairs_slot@[kk]) < cap,
                forall|kk: int|
                    0 <= kk < pairs_off@.len() ==> offset_in_range(#[trigger] pairs_off@[kk])
                        && (#[trigger] pairs_off@[kk]).y == 0,
                forall|j: int|
                    0 <= j < cap && (#[trigger] self.chunk_indices@[j]) is Some ==> exists|kk: int|
                        0 <= kk < k && spec_chunk_in_bounds(new_origin, vs as int, pairs_off@[kk])
                            && j == spec_cell_of_offset(new_origin, vs as int, #[trigger] pairs_off@[kk])
                            && self.chunk_indices@[j] == Some(pairs_slot@[kk]),
                forall|kk: int|
                    0 <= kk < k && spec_chunk_in_bounds(
                        new_origin,
                        vs as int,
                        #[trigger] pairs_off@[kk],
                    ) ==> self.chunk_indices@[spec_cell_of_offset(
                        new_origin,
                        vs as int,
                        pairs_off@[kk],
                    )] == Some(pairs_slot@[kk]),
                forall|kk: int|
                    0 <= kk < k && !spec_chunk_in_bounds(
                        new_origin,
                        vs as int,
                        #[trigger] pairs_off@[kk],
                    ) && !self.pending_jobs@[pairs_slot@[kk] as int] ==> (exists|e: int|
                        0 <= e < evictions@.len() && (#[trigger] evictions@[e]).slot
                            == pairs_slot@[kk]),
                evictions@.len() == evicted.len(),
                forall|e: int|
                    0 <= e < evictions@.len() ==> (#[trigger] evictions@[e]).slot == evicted[e],
                self.free_chunk_indices@ == pre.free_chunk_indices@ + evicted,
                forall|e: int|
                    0 <= e < evicted.len() ==> #[trigger] self.chunks.index_offset@[evicted[e] as int]
                        == crate::chunk_manager::spec_sentinel_offset(),
                forall|sl: int|
                    0 <= sl < cap && !(exists|e: int|
                        0 <= e < evicted.len() && #[trigger] evicted[e] == sl)
                        ==> self.chunks.index_offset@[sl] == pre.chunks.index_offset@[sl],
                self.chunks.index_offset@.len() == cap,
                forall|kk: int, j: int|
                    k <= kk < n_pairs && 0 <= j < cap ==> #[trigger] self.chunk_indices@[j]
                        != Some(#[trigger] pairs_slot@[kk]),
                forall|kk: int, fj: int|
                    k <= kk < n_pairs && 0 <= fj < self.free_chunk_indices@.len()
                        ==> #[trigger] self.free_chunk_indices@[fj] != #[trigger] pairs_slot@[kk],
                forall|e: int|
                    0 <= e < evictions@.len() ==> (#[trigger] evictions@[e]).slot < cap && (
                    pre.chunks.chunks@[evictions@[e].slot as int].needs_save ==> (
                    match evictions@[e].save {
                        Some(sr) => {
                            &&& sr.offset == pre.chunks.chunks@[evictions@[e].slot as int].offset
                            &&& sr.data@.len() == TOTAL_CHUNK_SIZE
                            &&& forall|b: int|
                                0 <= b < sr.data@.len() ==> sr.data@[b]
                                    == crate::chunk::spec_material_to_u8(
                                    pre.chunks.chunks@[evictions@[e].slot as int].blocks@[b].material_type,
                                )
                        },
                        None => false,
                    })) && (!pre.chunks.chunks@[evictions@[e].slot as int].needs_save
                        ==> evictions@[e].save is None),
            decreases n_pairs - k,
        {
            let s = pairs_slot[k];
            let off = pairs_off[k];
            if self.chunk_in_bounds(off) {
                let cell = self.get_chunk_world_index(off);
                proof {
                    lemma_cell_of_offset_inverse(new_origin, vs as int, off);
                    if self.chunk_indices@[cell as int] is Some {
                        let kk = choose|kk: int|
                            0 <= kk < k && spec_chunk_in_bounds(
                                new_origin,
                                vs as int,
                                pairs_off@[kk],
                            ) && cell as int == spec_cell_of_offset(
                                new_origin,
                                vs as int,
                                pairs_off@[kk],
                            ) && self.chunk_indices@[cell as int] == Some(pairs_slot@[kk]);
                        lemma_cell_of_offset_inverse(new_origin, vs as int, pairs_off@[kk]);
                        assert(pairs_off@[kk] == off);
                        assert(false);
                    }
                }
                let ghost indices_prev = self.chunk_indices@;
                self.chunk_indices[cell] = Some(s);
                proof {
                    assert(self.chunk_indices@[cell as int] == Some(s));
                    assert forall|kk: int|
                        0 <= kk < k + 1 && spec_chunk_in_bounds(
                            new_origin,
                            vs as int,
                            #[trigger] pairs_off@[kk],
                        ) implies self.chunk_indices@[spec_cell_of_offset(
                        new_origin,
                        vs as int,
                        pairs_off@[kk],
                    )] == Some(pairs_slot@[kk]) by {
                        if kk < k {
                            lemma_cell_of_offset_inverse(new_origin, vs as int, pairs_off@[kk]);
                            let cj = spec_cell_of_offset(new_origin, vs as int, pairs_off@[kk]);
                            if cj == cell as int {
                                lemma_cell_of_offset_inverse(new_origin, vs as int, off);
                                assert(pairs_off@[kk] == off);
                                assert(false);
                            }
                            assert(self.chunk_indices@[cj] == indices_prev[cj]);
                        }
                    }
                    assert forall|e2: int|
                        0 <= e2 < evicted.len() implies #[trigger] self.chunks.index_offset@[evicted[e2] as int]
                        == crate::chunk_manager::spec_sentinel_offset() by {}
                    assert forall|sl: int|
                        0 <= sl < cap && !(exists|e2: int|
                            0 <= e2 < evicted.len() && #[trigger] evicted[e2] == sl) implies
                        self.chunks.index_offset@[sl] == pre.chunks.index_offset@[sl] by {}

                    assert forall|j: int|
                        0 <= j < cap && (#[trigger] self.chunk_indices@[j]) is Some implies exists|
                        kk: int,
                    |
                        0 <= kk < k + 1 && spec_chunk_in_bounds(
                            new_origin,
                            vs as int,
                            pairs_off@[kk],
                        ) && j == spec_cell_of_offset(new_origin, vs as int, #[trigger] pairs_off@[kk])
                            && self.chunk_indices@[j] == Some(pairs_slot@[kk]) by {
                        if j == cell as int {
                            assert(spec_chunk_in_bounds(new_origin, vs as int, pairs_off@[k as int])
                                && j == spec_cell_of_offset(
                                new_origin,
                                vs as int,
                                pairs_off@[k as int],
                            ) && self.chunk_indices@[j] == Some(pairs_slot@[k as int]));
                        }
                    }
                    assert forall|i2: int, j2: int|
                        0 <= i2 < cap && 0 <= j2 < cap && i2 != j2 && (
                        #[trigger] self.chunk_indices@[i2]) is Some implies self.chunk_indices@[i2]
                        != #[trigger] self.chunk_indices@[j2] by {
                        if self.chunk_indices@[i2] == self.chunk_indices@[j2]
                            && self.chunk_indices@[j2] is Some {
                            let kk1 = choose|kk: int|
                                0 <= kk < k + 1 && spec_chunk_in_bounds(
                                    new_origin,
                                    vs as int,
                                    pairs_off@[kk],
                                ) && i2 == spec_cell_of_offset(
                                    new_origin,
                                    vs as int,
                                    pairs_off@[kk],
                                ) && self.chunk_indices@[i2] == Some(pairs_slot@[kk]);
                            let kk2 = choose|kk: int|
                                0 <= kk < k + 1 && spec_chunk_in_bounds(
                                    new_origin,
                                    vs as int,
                                    pairs_off@[kk],
                                ) && j2 == spec_cell_of_offset(
                                    new_origin,
                                    vs as int,
                                    pairs_off@[kk],
                                ) && self.chunk_indices@[j2] == Some(pairs_slot@[kk]);
                            if kk1 == kk2 {
                                assert(i2 == j2);
                            } else {
                                assert(pairs_slot@[kk1] != pairs_slot@[kk2]);
                            }
                            assert(false);
                        }
                    }
                    assert forall|fk: int, j2: int|
                        0 <= fk < self.free_chunk_indices@.len() && 0 <= j2 < cap implies
                        #[trigger] self.chunk_indices@[j2] != Some(
                        #[trigger] self.free_chunk_indices@[fk],
                    ) by {
                        if j2 == cell as int {
                            assert(self.free_chunk_indices@[fk] != pairs_slot@[k as int]);
                        }
                    }
                    assert forall|j2: int|
                        0 <= j2 < cap implies ((#[trigger] self.chunk_indices@[j2]) matches Some(
                            s2,
                        ) ==> s2 < cap) by {
                        if j2 == cell as int {
                            assert(pairs_slot@[k as int] < cap);
                        }
                    }
                    assert(self.chunks.wf());
                    assert(self.pending_jobs@.len() == cap);
                    assert(self.dirty_set@.len() == cap);
                    assert(forall|kq: int|
                        0 <= kq < self.dirty_queue@.len() ==> (#[trigger] self.dirty_queue@[kq])
                            < cap);
                    assert forall|s2: int|
                        0 <= s2 < cap implies ((#[trigger] self.dirty_set@[s2]) <==> exists|
                        kq: int,
                    | 0 <= kq < self.dirty_queue@.len() && self.dirty_queue@[kq] == s2) by {
                        assert(self.dirty_set@ == pre.dirty_set@);
                        assert(self.dirty_queue@ == pre.dirty_queue@);
                        if pre.dirty_set@[s2] {
                            let kq = choose|kq: int|
                                0 <= kq < pre.dirty_queue@.len() && pre.dirty_queue@[kq] == s2;
                            assert(self.dirty_queue@[kq] == s2);
                        }
                        if exists|kq: int|
                            0 <= kq < self.dirty_queue@.len() && self.dirty_queue@[kq] == s2 {
                            let kq = choose|kq: int|
                                0 <= kq < self.dirty_queue@.len() && self.dirty_queue@[kq] == s2;
                            assert(pre.dirty_queue@[kq] == s2);
                            assert(pre.dirty_set@[s2]);
                        }
                    }
                    assert(forall|fk: int|
                        0 <= fk < self.free_chunk_indices@.len() ==> (
                        #[trigger] self.free_chunk_indices@[fk]) < cap);
                    assert(forall|fk: int|
                        0 <= fk < self.free_chunk_indices@.len() ==> !self.pending_jobs@[(
                        #[trigger] self.free_chunk_indices@[fk]) as int]);
                }
            } else {
                if !self.pending_jobs[s] {
                    let ghost evictions_before = evictions@;
                    let ghost idx_before = self.chunks.index_offset@;
                    let ghost evicted_before = evicted;
                    let e = self.shrink_and_free_chunk(s);
                    evictions.push(e);
                    proof {
                        evicted = evicted.push(s);
                        assert(evicted.drop_last() =~= evicted_before);
                        assert(evictions@[evictions@.len() - 1].slot == s);
                        assert(self.free_chunk_indices@ =~= pre.free_chunk_indices@ + evicted);
                        assert forall|kk: int|
                            0 <= kk < k + 1 && !spec_chunk_in_bounds(
                                new_origin,
                                vs as int,
                                #[trigger] pairs_off@[kk],
                            ) && !self.pending_jobs@[pairs_slot@[kk] as int] implies (exists|
                            e2: int,
                        |
                            0 <= e2 < evictions@.len() && (#[trigger] evictions@[e2]).slot
                                == pairs_slot@[kk]) by {
                            if kk == k as int {
                                assert(evictions@[evictions@.len() - 1].slot == pairs_slot@[kk]);
                            } else {
                                if exists|e2: int|
                                    0 <= e2 < evictions_before.len() && (
                                    #[trigger] evictions_before[e2]).slot == pairs_slot@[kk] {
                                    let e2 = choose|e2: int|
                                        0 <= e2 < evictions_before.len() && (
                                        #[trigger] evictions_before[e2]).slot == pairs_slot@[kk];
                                    assert(evictions@[e2].slot == pairs_slot@[kk]);
                                }
                            }
                        }
                        assert forall|sl: int|
                            0 <= sl < cap && !(exists|e2: int|
                                0 <= e2 < evicted.len() && #[trigger] evicted[e2] == sl) implies
                            self.chunks.index_offset@[sl] == pre.chunks.index_offset@[sl] by {
                            assert(evicted[evicted.len() - 1] == s);
                            assert(sl != s as int);
                            assert(self.chunks.index_offset@[sl] == idx_before[sl]);
                            if exists|e2: int|
                                0 <= e2 < evicted_before.len() && #[trigger] evicted_before[e2]
                                    == sl {
                                let e2 = choose|e2: int|
                                    0 <= e2 < evicted_before.len() && #[trigger] evicted_before[e2]
                                        == sl;
                                assert(evicted[e2] == sl);
                                assert(false);
                            }
                        }
                        assert forall|e2: int|
                            0 <= e2 < evicted.len() implies
                            #[trigger] self.chunks.index_offset@[evicted[e2] as int]
                            == crate::chunk_manager::spec_sentinel_offset() by {
                            if e2 < evicted_before.len() {
                                assert(evicted[e2] == evicted_before[e2]);
                                assert(evictions_before[e2].slot == evicted_before[e2]);
                                assert((evicted_before[e2] as int) < cap);
                                if evicted[e2] as int == s as int {
                                } else {
                                    assert(self.chunks.index_offset@[evicted[e2] as int]
                                        == idx_before[evicted[e2] as int]);
                                    assert(idx_before[evicted_before[e2] as int]
                                        == crate::chunk_manager::spec_sentinel_offset());
                                }
                            } else {
                                assert(evicted[e2] == s);
                            }
                        }
                    }
                } else {
                    proof {
                        assert forall|kk: int|
                            0 <= kk < k + 1 && !spec_chunk_in_bounds(
                                new_origin,
                                vs as int,
                                #[trigger] pairs_off@[kk],
                            ) && !self.pending_jobs@[pairs_slot@[kk] as int] implies (exists|
                            e2: int,
                        |
                            0 <= e2 < evictions@.len() && (#[trigger] evictions@[e2]).slot
                                == pairs_slot@[kk]) by {
                            if kk == k as int {
                                assert(self.pending_jobs@[pairs_slot@[kk] as int]);
                            }
                        }
                        assert forall|e2: int|
                            0 <= e2 < evicted.len() implies
                            #[trigger] self.chunks.index_offset@[evicted[e2] as int]
                            == crate::chunk_manager::spec_sentinel_offset() by {}
                        assert forall|sl: int|
                            0 <= sl < cap && !(exists|e2: int|
                                0 <= e2 < evicted.len() && #[trigger] evicted[e2] == sl) implies
                            self.chunks.index_offset@[sl] == pre.chunks.index_offset@[sl] by {}
                    }
                }
            }
            k = k + 1;
        }
        proof {
            assert forall|sl: int|
                0 <= sl < cap && !(exists|e: int|
                    0 <= e < evictions@.len() && (#[trigger] evictions@[e]).slot == sl) implies
                self.chunks.index_offset@[sl] == pre.chunks.index_offset@[sl] by {
                if exists|e2: int| 0 <= e2 < evicted.len() && #[trigger] evicted[e2] == sl {
                    let e2 = choose|e2: int|
                        0 <= e2 < evicted.len() && #[trigger] evicted[e2] == sl;
                    assert(evictions@[e2].slot == sl);
                    assert(false);
                }
            }
            assert forall|i: int|
                0 <= i < cap && (#[trigger] pre.chunk_indices@[i]) is Some
                    && spec_chunk_in_bounds(
                    new_origin,
                    vs as int,
                    spec_cell_offset(old_origin, vs as int, i),
                ) implies self.chunk_indices@[spec_cell_of_offset(
                new_origin,
                vs as int,
                spec_cell_offset(old_origin, vs as int, i),
            )] == pre.chunk_indices@[i] by {
                let kk = choose|kk: int| 0 <= kk < src_cells.len() && src_cells[kk] == i;
                assert(pairs_off@[kk] == spec_cell_offset(old_origin, vs as int, i));
                assert(pre.chunk_indices@[i] == Some(pairs_slot@[kk]));
            }
            assert forall|i: int|
                0 <= i < cap implies ((#[trigger] pre.chunk_indices@[i]) matches Some(sl) ==> (
            !spec_chunk_in_bounds(
                new_origin,
                vs as int,
                spec_cell_offset(old_origin, vs as int, i),
            ) && !pre.pending_jobs@[sl as int] ==> (exists|e: int|
                0 <= e < evictions@.len() && (#[trigger] evictions@[e]).slot == sl))) by {
                if pre.chunk_indices@[i] is Some {
                    let kk = choose|kk: int| 0 <= kk < src_cells.len() && src_cells[kk] == i;
                    assert(pairs_off@[kk] == spec_cell_offset(old_origin, vs as int, i));
                    assert(pre.chunk_indices@[i] == Some(pairs_slot@[kk]));
                }
            }
        }
        evictions
    }
}

} // verus!

verus! {

impl TerrainGen {
    /// Plan generation jobs for unmapped window cells, nearest to the
    /// viewer's chunk first, limited by the in-flight cap and by the
    /// free slots available. Each planned cell is mapped to its slot and
    /// the slot marked in flight; the caller runs the jobs.
    fn load_empty_chunks(&mut self, player_chunk: Vec3i) -> (jobs: Vec<JobRequest>)
        requires
            old(self).wf(),
            -1000000 <= player_chunk.x <= 1000000,
            -1000000 <= player_chunk.z <= 1000000,
        ensures
            final(self).wf(),
            forall|j: int|
                0 <= j < jobs@.len() ==> (#[trigger] jobs@[j]).slot < old(self).spec_capacity()
                    && offset_in_range(jobs@[j].offset) && spec_chunk_in_bounds(
                    old(self).chunks_origin,
                    old(self).chunks_view_size as int,
                    jobs@[j].offset,
                ) && final(self).pending_jobs@[jobs@[j].slot as int],
            forall|a: int, b: int|
                0 <= a < b < jobs@.len() ==> spec_sq_dist(
                    (#[trigger] jobs@[a]).offset,
                    player_chunk,
                ) <= spec_sq_dist((#[trigger] jobs@[b]).offset, player_chunk),
            forall|j: int|
                0 <= j < jobs@.len() ==> final(self).chunk_indices@[spec_cell_of_offset(
                    old(self).chunks_origin,
                    old(self).chunks_view_size as int,
                    (#[trigger] jobs@[j]).offset,
                )] == Some(jobs@[j].slot),
            (exists|c: int|
                0 <= c < old(self).spec_capacity() && final(self).chunk_indices@[c] is None)
                ==> final(self).pending_count >= MAX_JOBS_IN_FLIGHT || final(self).free_chunk_indices@.len() == 0,
            final(self).pending_count == old(self).pending_count + jobs@.len(),
            final(self).free_chunk_indices@ == old(self).free_chunk_indices@.skip(
                jobs@.len() as int,
            ),
            forall|s: int|
                0 <= s < old(self).spec_capacity() && !(exists|j: int|
                    0 <= j < jobs@.len() && (#[trigger] jobs@[j]).slot == s) ==> final(self).pending_jobs@[s] == old(self).pending_jobs@[s],
            final(self).chunks.chunks@ == old(self).chunks.chunks@,
            final(self).chunks.index_offset == old(self).chunks.index_offset,
            final(self).center_offset == old(self).center_offset,
            final(self).chunks_origin == old(self).chunks_origin,
            final(self).chunks_view_size == old(self).chunks_view_size,
            final(self).dirty_queue == old(self).dirty_queue,
            final(self).dirty_set == old(self).dirty_set,
            final(self).biome == old(self).biome,
            final(self).noise == old(self).noise,
            final(self).land_level == old(self).land_level,
    {
        let mut jobs: Vec<JobRequest> = Vec::new();
        let cap = self.chunk_indices.len();
        loop
            invariant
                self.wf(),
                old(self).wf(),
                -1000000 <= player_chunk.x <= 1000000,
                -1000000 <= player_chunk.z <= 1000000,
                cap == self.chunk_indices@.len(),
                cap == self.spec_capacity(),
                self.spec_capacity() == old(self).spec_capacity(),
                forall|j: int|
                    0 <= j < jobs@.len() ==> (#[trigger] jobs@[j]).slot < cap && offset_in_range(
                        jobs@[j].offset,
                    ) && spec_chunk_in_bounds(
                        self.chunks_origin,
                        self.chunks_view_size as int,
                        jobs@[j].offset,
                    ) && self.pending_jobs@[jobs@[j].slot as int] && jobs@[j].offset.y == 0,
                forall|a: int, b: int|
                    0 <= a < b < jobs@.len() ==> spec_sq_dist(
                        (#[trigger] jobs@[a]).offset,
                        player_chunk,
                    ) <= spec_sq_dist((#[trigger] jobs@[b]).offset, player_chunk),
                forall|c: int|
                    0 <= c < cap && (#[trigger] self.chunk_indices@[c]) is None && jobs@.len() > 0
                        ==> spec_sq_dist(jobs@[jobs@.len() - 1].offset, player_chunk)
                        <= spec_sq_dist(
                        spec_cell_offset(self.chunks_origin, self.chunks_view_size as int, c),
                        player_chunk,
                    ),
                forall|j: int|
                    0 <= j < jobs@.len() ==> self.chunk_indices@[spec_cell_of_offset(
                        self.chunks_origin,
                        self.chunks_view_size as int,
                        (#[trigger] jobs@[j]).offset,
                    )] == Some(jobs@[j].slot),
                self.pending_count == old(self).pending_count + jobs@.len(),
                jobs@.len() + self.free_chunk_indices@.len() == old(self).free_chunk_indices@.len(),
                self.free_chunk_indices@ == old(self).free_chunk_indices@.skip(jobs@.len() as int),
                forall|s: int|
                    0 <= s < cap && !(exists|j: int|
                        0 <= j < jobs@.len() && (#[trigger] jobs@[j]).slot == s)
                        ==> self.pending_jobs@[s] == old(self).pending_jobs@[s],
                self.chunks.chunks@ == old(self).chunks.chunks@,
                self.chunks.index_offset == old(self).chunks.index_offset,
                self.center_offset == old(self).center_offset,
                self.chunks_origin == old(self).chunks_origin,
                self.chunks_view_size == old(self).chunks_view_size,
                self.dirty_queue == old(self).dirty_queue,
                self.dirty_set == old(self).dirty_set,
                self.biome == old(self).biome,
                self.noise == old(self).noise,
                self.land_level == old(self).land_level,
            ensures
                (exists|c: int| 0 <= c < cap && self.chunk_indices@[c] is None)
                    ==> self.pending_count >= MAX_JOBS_IN_FLIGHT
                    || self.free_chunk_indices@.len() == 0,
            decreases self.free_chunk_indices@.len(),
        {
            if self.pending_count >= MAX_JOBS_IN_FLIGHT {
                break ;
            }
            if self.free_chunk_indices.len() == 0 {
                break ;
            }
            let mut best_cell: usize = 0;
            let mut best_dist: i64 = 0;
            let mut found: bool = false;
            let mut i: usize = 0;
            while i < cap
                invariant
                    self.wf(),
                    cap == self.chunk_indices@.len(),
                    cap == self.spec_capacity(),
                    i <= cap,
                    -1000000 <= player_chunk.x <= 1000000,
                    -1000000 <= player_chunk.z <= 1000000,
                    found ==> best_cell < cap && self.chunk_indices@[best_cell as int] is None
                        && best_dist == spec_sq_dist(
                        spec_cell_offset(
                            self.chunks_origin,
                            self.chunks_view_size as int,
                            best_cell as int,
                        ),
                        player_chunk,
                    ),
                    found ==> forall|j: int|
                        0 <= j < i && (#[trigger] self.chunk_indices@[j]) is None ==> best_dist
                            <= spec_sq_dist(
                            spec_cell_offset(self.chunks_origin, self.chunks_view_size as int, j),
                            player_chunk,
                        ),
                    !found ==> forall|j: int| 0 <= j < i ==> self.chunk_indices@[j] is Some,
                decreases cap - i,
            {
                if self.chunk_indices[i].is_none() {
                    let off = self.get_chunk_offset(i);
                    let dx = off.x as i64 - player_chunk.x as i64;
                    let dz = off.z as i64 - player_chunk.z as i64;
                    proof {
                        assert(-200000000 <= dx <= 200000000);
                        assert(-200000000 <= dz <= 200000000);
                    }
                    proof {
                        assert(0 <= dx * dx <= 0x2000000000000000int && 0 <= dz * dz
                            <= 0x2000000000000000int) by (nonlinear_arith)
                            requires
                                -200000000 <= dx <= 200000000,
                                -200000000 <= dz <= 200000000,
                        ;
                    }
                    let d = dx * dx + dz * dz;
                    proof {
                        assert(d as int == spec_sq_dist(
                            spec_cell_offset(
                                self.chunks_origin,
                                self.chunks_view_size as int,
                                i as int,
                            ),
                            player_chunk,
                        ));
                    }
                    if !found || d < best_dist {
                        best_cell = i;
                        best_dist = d;
                        found = true;
                    }
                }
                i = i + 1;
            }
            if !found {
                break ;
            }
            let offset = self.get_chunk_offset(best_cell);
            proof {
                lemma_cell_offset_in_bounds(
                    self.chunks_origin,
                    self.chunks_view_size as int,
                    best_cell as int,
                );
            }
            let ghost free_head = self.free_chunk_indices@;
            let new_index = self.free_chunk_indices.remove(0);
            proof {
                assert(self.chunk_indices@[best_cell as int] is None);
            }
            let ghost jobs_before = jobs@;
            let ghost jobs_before = jobs@;
            let ghost indices_before = self.chunk_indices@;
            self.chunk_indices[best_cell] = Some(new_index);
            self.pending_jobs[new_index] = true;
            self.pending_count = self.pending_count + 1;
            jobs.push(JobRequest { slot: new_index, offset });
            proof {
                lemma_cell_of_cell_offset(
                    self.chunks_origin,
                    self.chunks_view_size as int,
                    best_cell as int,
                );
                assert(spec_cell_of_offset(
                    self.chunks_origin,
                    self.chunks_view_size as int,
                    offset,
                ) == best_cell as int);
                assert(free_head == old(self).free_chunk_indices@.skip(
                    jobs_before.len() as int,
                ));
                assert(self.free_chunk_indices@ == free_head.remove(0));
                assert(self.free_chunk_indices@ =~= old(self).free_chunk_indices@.skip(
                    jobs@.len() as int,
                )) by {
                    let oldf = old(self).free_chunk_indices@;
                    let lhs = self.free_chunk_indices@;
                    let l = jobs_before.len() as int;
                    assert(lhs.len() == oldf.skip(l + 1).len());
                    assert forall|i: int| 0 <= i < lhs.len() implies lhs[i] == oldf.skip(
                        l + 1,
                    )[i] by {
                        assert(lhs[i] == free_head[i + 1]);
                        assert(free_head[i + 1] == oldf[l + 1 + i]);
                    }
                }
                assert forall|j: int|
                    0 <= j < jobs@.len() implies self.chunk_indices@[spec_cell_of_offset(
                    self.chunks_origin,
                    self.chunks_view_size as int,
                    (#[trigger] jobs@[j]).offset,
                )] == Some(jobs@[j].slot) by {
                    if j < jobs@.len() - 1 {
                        lemma_cell_of_offset_inverse(
                            self.chunks_origin,
                            self.chunks_view_size as int,
                            jobs_before[j].offset,
                        );
                        let cj = spec_cell_of_offset(
                            self.chunks_origin,
                            self.chunks_view_size as int,
                            jobs@[j].offset,
                        );
                        assert(jobs@[j] == jobs_before[j]);
                        assert(indices_before[cj] == Some(jobs_before[j].slot));
                        assert(indices_before[best_cell as int] is None);
                        assert(cj != best_cell as int);
                        assert(self.chunk_indices@[cj] == indices_before[cj]);
                    }
                }
                assert forall|s: int|
                    0 <= s < cap && !(exists|j: int|
                        0 <= j < jobs@.len() && (#[trigger] jobs@[j]).slot == s) implies
                    self.pending_jobs@[s] == old(self).pending_jobs@[s] by {
                    assert(jobs@[jobs@.len() - 1].slot == new_index);
                    assert(s != new_index);
                    if !(exists|j: int|
                        0 <= j < jobs_before.len() && (#[trigger] jobs_before[j]).slot == s) {
                    } else {
                        let j = choose|j: int|
                            0 <= j < jobs_before.len() && (#[trigger] jobs_before[j]).slot == s;
                        assert(jobs@[j].slot == s);
                        assert(false);
                    }
                }
                assert(offset == spec_cell_offset(
                    self.chunks_origin,
                    self.chunks_view_size as int,
                    best_cell as int,
                ));
                assert forall|a: int, b: int| 0 <= a < b < jobs@.len() implies spec_sq_dist(
                    (#[trigger] jobs@[a]).offset,
                    player_chunk,
                ) <= spec_sq_dist((#[trigger] jobs@[b]).offset, player_chunk) by {
                    if b == jobs@.len() - 1 {
                        if jobs_before.len() > 0 {
                            assert(spec_sq_dist(jobs_before[jobs_before.len() - 1].offset, player_chunk)
                                <= best_dist as int);
                            assert(spec_sq_dist(jobs@[a].offset, player_chunk) <= spec_sq_dist(
                                jobs_before[jobs_before.len() - 1].offset,
                                player_chunk,
                            ));
                        }
                    } else {
                        assert(jobs@[a] == jobs_before[a] && jobs@[b] == jobs_before[b]);
                    }
                }
            }
            proof {
                let capi = self.spec_capacity();
                assert(self.chunks.wf());
                assert forall|i2: int, j2: int|
                    0 <= i2 < capi && 0 <= j2 < capi && i2 != j2 && (
                    #[trigger] self.chunk_indices@[i2]) is Some implies self.chunk_indices@[i2]
                    != #[trigger] self.chunk_indices@[j2] by {}
                assert forall|k2: int, i2: int|
                    0 <= k2 < self.free_chunk_indices@.len() && 0 <= i2 < capi implies
                    #[trigger] self.chunk_indices@[i2] != Some(
                    #[trigger] self.free_chunk_indices@[k2],
                ) by {}
                assert forall|k2: int|
                    0 <= k2 < self.free_chunk_indices@.len() implies !self.pending_jobs@[(
                    #[trigger] self.free_chunk_indices@[k2]) as int] by {}
                assert(self.chunks.wf());
                assert(self.chunks.chunks@.len() == capi);
                assert(forall|kq: int|
                    0 <= kq < self.dirty_queue@.len() ==> (#[trigger] self.dirty_queue@[kq])
                        < capi);
                assert forall|s2: int|
                    0 <= s2 < capi implies ((#[trigger] self.dirty_set@[s2]) <==> exists|kq: int|
                    0 <= kq < self.dirty_queue@.len() && self.dirty_queue@[kq] == s2) by {
                    assert(self.dirty_set@ == old(self).dirty_set@);
                    assert(self.dirty_queue@ == old(self).dirty_queue@);
                    if old(self).dirty_set@[s2] {
                        let kq = choose|kq: int|
                            0 <= kq < old(self).dirty_queue@.len() && old(self).dirty_queue@[kq]
                                == s2;
                        assert(self.dirty_queue@[kq] == s2);
                    }
                    if exists|kq: int|
                        0 <= kq < self.dirty_queue@.len() && self.dirty_queue@[kq] == s2 {
                        let kq = choose|kq: int|
                            0 <= kq < self.dirty_queue@.len() && self.dirty_queue@[kq] == s2;
                        assert(old(self).dirty_queue@[kq] == s2);
                        assert(old(self).dirty_set@[s2]);
                    }
                }
                assert(forall|k2: int|
                    0 <= k2 < self.free_chunk_indices@.len() ==> (
                    #[trigger] self.free_chunk_indices@[k2]) < capi);
                assert(self.pending_count <= MAX_JOBS_IN_FLIGHT);
            }
        }
        jobs
    }

    /// One frame of the streaming scheduler. Recomputes the window from
    /// the viewer position and re-homes or evicts the slots it no longer
    /// covers; registers the finished jobs in `ready` (evicting any the
    /// viewer moved away from); remeshes up to `dirty_budget` queued
    /// dirty chunks; and plans jobs for missing window cells, nearest
    /// first. Returns the uploads, evictions and jobs for the
    /// surrounding loop.
    #[verifier::rlimit(100)]
    #[verifier::spinoff_prover]
    pub fn update(&mut self, viewer_pos: Vec3i, ready: &Vec<usize>, dirty_budget: usize) -> (acts:
        UpdateActions)
        requires
            old(self).wf(),
            viewer_pos_in_range(viewer_pos),
            forall|k: int|
                0 <= k < ready@.len() ==> (#[trigger] ready@[k]) < old(self).spec_capacity(),
            forall|k1: int, k2: int|
                0 <= k1 < ready@.len() && 0 <= k2 < ready@.len() && k1 != k2
                    ==> #[trigger] ready@[k1] != #[trigger] ready@[k2],
            forall|k: int|
                0 <= k < ready@.len() ==> old(self).pending_jobs@[(#[trigger] ready@[k]) as int],
            ready@.len() <= old(self).pending_count,
        ensures
            final(self).wf(),
            final(self).chunks_view_size == old(self).chunks_view_size,
            final(self).chunks_origin == spec_origin_for(
                spec_viewer_chunk_offset(viewer_pos),
                old(self).chunks_view_size as int,
            ),
            forall|u: int|
                0 <= u < acts.uploads@.len() ==> (#[trigger] acts.uploads@[u]) < old(self).spec_capacity(),
            acts.uploads@.len() >= ready@.len(),
            acts.uploads@.take(ready@.len() as int) == ready@,
            final(self).pending_count == old(self).pending_count - ready@.len()
                + acts.jobs@.len(),
            forall|k: int|
                0 <= k < ready@.len() && !(exists|j: int|
                    0 <= j < acts.jobs@.len() && (#[trigger] acts.jobs@[j]).slot == ready@[k])
                    ==> !final(self).pending_jobs@[(#[trigger] ready@[k]) as int],
            (exists|c: int|
                0 <= c < old(self).spec_capacity() && final(self).chunk_indices@[c] is None)
                ==> final(self).pending_count >= MAX_JOBS_IN_FLIGHT || final(self).free_chunk_indices@.len() == 0,
            forall|i: int|
                0 <= i < old(self).spec_capacity() ==> ((#[trigger] old(self).chunk_indices@[i])
                    matches Some(sl) ==> (!spec_chunk_in_bounds(
                    spec_origin_for(
                        spec_viewer_chunk_offset(viewer_pos),
                        old(self).chunks_view_size as int,
                    ),
                    old(self).chunks_view_size as int,
                    spec_cell_offset(old(self).chunks_origin, old(self).chunks_view_size as int, i),
                ) && !old(self).pending_jobs@[sl as int] ==> (exists|e: int|
                    0 <= e < acts.evictions@.len() && (#[trigger] acts.evictions@[e]).slot
                        == sl))),
            forall|k: int|
                0 <= k < ready@.len() ==> final(self).chunks.index_offset@[(
                #[trigger] ready@[k]) as int] == old(self).chunks.chunks@[ready@[k] as int].offset
                    || (exists|e: int|
                    0 <= e < acts.evictions@.len() && (#[trigger] acts.evictions@[e]).slot
                        == ready@[k]) || (exists|k2: int|
                    0 <= k2 < ready@.len() && k2 != k && old(self).chunks.chunks@[(
                    #[trigger] ready@[k2]) as int].offset == old(self).chunks.chunks@[ready@[k] as int].offset),
            forall|j: int|
                0 <= j < acts.jobs@.len() ==> (#[trigger] acts.jobs@[j]).slot < old(self).spec_capacity() && offset_in_range(acts.jobs@[j].offset) && spec_chunk_in_bounds(
                    final(self).chunks_origin,
                    old(self).chunks_view_size as int,
                    acts.jobs@[j].offset,
                ),
            forall|a: int, b: int|
                0 <= a < b < acts.jobs@.len() ==> spec_sq_dist(
                    (#[trigger] acts.jobs@[a]).offset,
                    spec_viewer_chunk_offset(viewer_pos),
                ) <= spec_sq_dist(
                    (#[trigger] acts.jobs@[b]).offset,
                    spec_viewer_chunk_offset(viewer_pos),
                ),
            forall|e: int|
                0 <= e < acts.evictions@.len() ==> (#[trigger] acts.evictions@[e]).slot < old(self).spec_capacity() && (old(self).chunks.chunks@[acts.evictions@[e].slot as int].needs_save ==> (
                match acts.evictions@[e].save {
                    Some(sr) => {
                        &&& sr.offset == old(self).chunks.chunks@[acts.evictions@[e].slot as int].offset
                        &&& sr.data@.len() == TOTAL_CHUNK_SIZE
                        &&& forall|b: int|
                            0 <= b < sr.data@.len() ==> sr.data@[b]
                                == crate::chunk::spec_material_to_u8(
                                old(self).chunks.chunks@[acts.evictions@[e].slot as int].blocks@[b].material_type,
                            )
                    },
                    None => false,
                })) && (!old(self).chunks.chunks@[acts.evictions@[e].slot as int].needs_save
                    ==> acts.evictions@[e].save is None),
    {
        let new_center = Self::world_pos_to_chunk_offset(viewer_pos);
        let half = (self.chunks_view_size / 2) as i32;
        let new_origin = Vec3i { x: new_center.x - half, y: 0, z: new_center.z - half };
        proof {
            assert(new_origin == spec_origin_for(new_center, self.chunks_view_size as int));
        }
        let moved_to_new_chunk = !(new_origin == self.chunks_origin);

        let mut evictions: Vec<Eviction> = Vec::new();
        if moved_to_new_chunk {
            evictions = self.recenter(new_center, new_origin);
        }
        proof {
            assert(self.chunks_origin == new_origin);
        }
        let ghost s2 = *self;
        let ghost rec_ev = evictions@;

        let (mut uploads, mut ready_evictions) = self.process_ready_chunks(ready);
        let ghost rdy_ev = ready_evictions@;
        evictions.append(&mut ready_evictions);

        let mut dirty_uploads = self.process_dirty_chunks(dirty_budget);
        uploads.append(&mut dirty_uploads);

        let missing = self.has_missing_chunks();
        let jobs: Vec<JobRequest> = if moved_to_new_chunk || missing {
            self.load_empty_chunks(new_center)
        } else {
            Vec::new()
        };

        proof {
            assert(evictions@ == rec_ev + rdy_ev);
            assert(s2.chunks.chunks@ == old(self).chunks.chunks@);
            assert forall|i: int|
                0 <= i < old(self).spec_capacity() implies ((#[trigger] old(
                self,
            ).chunk_indices@[i]) matches Some(sl) ==> (!spec_chunk_in_bounds(
                new_origin,
                old(self).chunks_view_size as int,
                spec_cell_offset(old(self).chunks_origin, old(self).chunks_view_size as int, i),
            ) && !old(self).pending_jobs@[sl as int] ==> (exists|e: int|
                0 <= e < evictions@.len() && (#[trigger] evictions@[e]).slot == sl))) by {
                if old(self).chunk_indices@[i] is Some {
                    if moved_to_new_chunk {
                        if !spec_chunk_in_bounds(
                            new_origin,
                            old(self).chunks_view_size as int,
                            spec_cell_offset(
                                old(self).chunks_origin,
                                old(self).chunks_view_size as int,
                                i,
                            ),
                        ) && !old(self).pending_jobs@[old(
                            self,
                        ).chunk_indices@[i].unwrap() as int] {
                            let e = choose|e: int|
                                0 <= e < rec_ev.len() && rec_ev[e].slot == old(
                                    self,
                                ).chunk_indices@[i].unwrap();
                            assert(evictions@[e].slot == old(self).chunk_indices@[i].unwrap());
                        }
                    } else {
                        lemma_cell_offset_in_bounds(
                            old(self).chunks_origin,
                            old(self).chunks_view_size as int,
                            i,
                        );
                    }
                }
            }
            assert forall|k: int|
                0 <= k < ready@.len() implies self.chunks.index_offset@[(
                #[trigger] ready@[k]) as int] == old(self).chunks.chunks@[ready@[k] as int].offset
                    || (exists|e: int|
                    0 <= e < evictions@.len() && (#[trigger] evictions@[e]).slot == ready@[k])
                    || (exists|k2: int|
                    0 <= k2 < ready@.len() && k2 != k && old(self).chunks.chunks@[(
                    #[trigger] ready@[k2]) as int].offset == old(
                    self,
                ).chunks.chunks@[ready@[k] as int].offset) by {
                if spec_slot_mapped(s2, ready@[k]) {
                } else {
                    let e = choose|e: int|
                        0 <= e < rdy_ev.len() && (#[trigger] rdy_ev[e]).slot == ready@[k];
                    assert(evictions@[rec_ev.len() + e].slot == ready@[k]);
                }
            }
        }

        UpdateActions { uploads, evictions, jobs }
    }

    /// The generation worker's task for one job: restore the chunk from
    /// its on-disk bytes where they are intact, regenerate it otherwise,
    /// then rebuild its whole mesh. Pure apart from the bytes handed in:
    /// the same seed, offset and bytes always produce the same chunk.
    pub fn run_job(&mut self, slot: usize, offset: Vec3i, file_data: Option<&Vec<u8>>)
        requires
            old(self).wf(),
            slot < old(self).spec_capacity(),
            offset_in_range(offset),
        ensures
            final(self).wf(),
            final(self).chunks.chunks@.len() == old(self).chunks.chunks@.len(),
            forall|s: int|
                0 <= s < old(self).chunks.chunks@.len() && s != slot ==> #[trigger] final(self).chunks.chunks@[s] == old(self).chunks.chunks@[s],
            final(self).chunks.chunks@[slot as int].offset == offset,
            crate::chunk::spec_layers_consistent(final(self).chunks.chunks@[slot as int]),
            final(self).chunks.chunks@[slot as int].mesh.verts@
                == crate::chunk::spec_combined_verts(
                final(self).chunks.chunks@[slot as int].layer_meshes@,
            ),
            final(self).chunks.chunks@[slot as int].mesh.indices@
                == crate::chunk::spec_combined_indices(
                final(self).chunks.chunks@[slot as int].layer_meshes@,
            ),
            final(self).chunks.chunks@[slot as int].layer_spans@ == crate::chunk::spec_spans(
                final(self).chunks.chunks@[slot as int].layer_meshes@,
            ),
            final(self).chunks.chunks@[slot as int].dirty_y_range is None,
            (match file_data {
                Some(d) => d@.len() == TOTAL_CHUNK_SIZE ==> forall|b: int|
                    0 <= b < TOTAL_CHUNK_SIZE ==> final(self).chunks.chunks@[slot as int].blocks@[b] == (crate::block::Block {
                        material_type: crate::chunk::spec_material_from_u8(d@[b]),
                    }),
                None => forall|y: int, x: int, z: int|
                    crate::chunk::spec_grid_pos_in_bounds(y, x, z) ==> final(self).chunks.chunks@[slot as int].blocks@[crate::chunk::spec_chunk_index(
                        y,
                        x,
                        z,
                    )] == (crate::block::Block {
                        material_type: crate::chunk::spec_generated_material(
                            old(self).noise.seed,
                            offset,
                            old(self).biome,
                            old(self).land_level as int,
                            y,
                            x,
                            z,
                        ),
                    }),
            }),
            final(self).chunks.index_offset == old(self).chunks.index_offset,
            final(self).chunk_indices == old(self).chunk_indices,
            final(self).free_chunk_indices == old(self).free_chunk_indices,
            final(self).pending_jobs == old(self).pending_jobs,
            final(self).pending_count == old(self).pending_count,
            final(self).dirty_queue == old(self).dirty_queue,
            final(self).dirty_set == old(self).dirty_set,
            final(self).center_offset == old(self).center_offset,
            final(self).chunks_origin == old(self).chunks_origin,
            final(self).chunks_view_size == old(self).chunks_view_size,
            final(self).biome == old(self).biome,
            final(self).noise == old(self).noise,
            final(self).land_level == old(self).land_level,
    {
        let mut loaded = false;
        match file_data {
            Some(data) => {
                let r = self.chunks.chunks[slot].load_bytes(data, offset);
                loaded = r.is_ok();
            },
            None => {},
        }
        if !loaded {
            let noise = self.noise;
            let biome = self.biome;
            let land_level = self.land_level;
            self.chunks.chunks[slot].update_blocks(offset, &noise, &biome, land_level);
        }
        let biome = self.biome;
        let ghost before_mesh = self.chunks.chunks@[slot as int];
        self.chunks.chunks[slot].update_mesh(biome, None);
        proof {
            crate::chunk::lemma_full_remesh_consistent(
                before_mesh,
                self.chunks.chunks@[slot as int],
            );
            let cap = self.spec_capacity();
            assert(self.chunks.wf());
            assert(self.chunks.chunks@.len() == cap);
            assert(forall|kq: int|
                0 <= kq < self.dirty_queue@.len() ==> (#[trigger] self.dirty_queue@[kq]) < cap);
            assert forall|s2: int|
                0 <= s2 < cap implies ((#[trigger] self.dirty_set@[s2]) <==> exists|kq: int|
                    0 <= kq < self.dirty_queue@.len() && self.dirty_queue@[kq] == s2) by {
                assert(self.dirty_set@ == old(self).dirty_set@);
                assert(self.dirty_queue@ == old(self).dirty_queue@);
                if old(self).dirty_set@[s2] {
                    let kq = choose|kq: int|
                        0 <= kq < old(self).dirty_queue@.len() && old(self).dirty_queue@[kq]
                            == s2;
                    assert(self.dirty_queue@[kq] == s2);
                }
                if exists|kq: int|
                    0 <= kq < self.dirty_queue@.len() && self.dirty_queue@[kq] == s2 {
                    let kq = choose|kq: int|
                        0 <= kq < self.dirty_queue@.len() && self.dirty_queue@[kq] == s2;
                    assert(old(self).dirty_queue@[kq] == s2);
                    assert(old(self).dirty_set@[s2]);
                }
            }
            assert(forall|fk: int, j2: int|
                0 <= fk < self.free_chunk_indices@.len() && 0 <= j2 < cap
                    ==> #[trigger] self.chunk_indices@[j2] != Some(
                    #[trigger] self.free_chunk_indices@[fk],
                ));
            assert(forall|fk: int|
                0 <= fk < self.free_chunk_indices@.len() ==> !self.pending_jobs@[(
                #[trigger] self.free_chunk_indices@[fk]) as int]);
        }
    }
}

} // verus!

verus! {

/// A window cell is the cell of its own offset.
pub proof fn lemma_cell_of_cell_offset(origin: Vec3i, vs: int, i: int)
    requires
        2 <= vs <= MAX_VIEW_SIZE,
        -1000600 <= origin.x <= 1000600,
        -1000600 <= origin.z <= 1000600,
        0 <= i < vs * vs,
    ensures
        spec_cell_of_offset(origin, vs, spec_cell_offset(origin, vs, i)) == i,
{
    vstd::arithmetic::div_mod::lemma_fundamental_div_mod(i, vs);
    vstd::arithmetic::div_mod::lemma_mod_bound(i, vs);
    assert(0 <= i / vs < vs) by (nonlinear_arith)
        requires
            i == vs * (i / vs) + i % vs,
            0 <= i % vs < vs,
            0 <= i < vs * vs,
    ;
    let off = spec_cell_offset(origin, vs, i);
    assert(off.x - origin.x == i % vs && off.z - origin.z == i / vs);
    assert(spec_cell_of_offset(origin, vs, off) == (i / vs) * vs + i % vs);
    assert((i / vs) * vs + i % vs == i) by (nonlinear_arith)
        requires
            i == vs * (i / vs) + i % vs,
    ;
}

/// Every window cell's offset lies inside the window square.
pub proof fn lemma_cell_offset_in_bounds(origin: Vec3i, vs: int, i: int)
    requires
        2 <= vs <= MAX_VIEW_SIZE,
        -1000600 <= origin.x <= 1000600,
        -1000600 <= origin.z <= 1000600,
        0 <= i < vs * vs,
    ensures
        spec_chunk_in_bounds(origin, vs, spec_cell_offset(origin, vs, i)),
{
    vstd::arithmetic::div_mod::lemma_fundamental_div_mod(i, vs);
    vstd::arithmetic::div_mod::lemma_mod_bound(i, vs);
    assert(0 <= i / vs < vs) by (nonlinear_arith)
        requires
            i == vs * (i / vs) + i % vs,
            0 <= i % vs < vs,
            0 <= i < vs * vs,
    ;
}

} // verus!

verus! {

} // verus!
