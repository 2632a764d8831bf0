//! The spatial index over chunk slots: a bidirectional mapping between
//! chunk-space offsets and slot indices, block reads and writes in world
//! voxel coordinates, and the cross-chunk propagation that keeps a
//! neighbour's padding ring in step with edits on a shared border.
use vstd::prelude::*;

use crate::block::{Block, MaterialType};
use crate::chunk::{
    lemma_chunk_index_coords, spec_chunk_index, spec_dirty_band_hi, spec_dirty_band_lo,
    spec_grid_pos_in_bounds, spec_merged_dirty_range, Chunk, CHUNK_AREA, CHUNK_Y_SIZE,
};
use crate::coords::{div_floor, offset_in_range, rem_floor, Vec3i};

verus! {

/// Bound on the absolute value of any world voxel coordinate handed to
/// the block read/write API; keeps the owning chunk's offset inside the
/// supported offset range.
pub const EDIT_COORD_LIMIT: i32 = 16777200;

/// A world position the block read/write API accepts.
pub open spec fn edit_pos_in_range(p: Vec3i) -> bool {
    &&& -EDIT_COORD_LIMIT <= p.x <= EDIT_COORD_LIMIT
    &&& -EDIT_COORD_LIMIT <= p.y <= EDIT_COORD_LIMIT
    &&& -EDIT_COORD_LIMIT <= p.z <= EDIT_COORD_LIMIT
}

/// The offset that marks a slot as unmapped. It can never collide with a
/// real in-use offset, which always lies inside the supported range.
pub open spec fn spec_sentinel_offset() -> Vec3i {
    Vec3i { x: i32::MIN, y: i32::MIN, z: i32::MIN }
}

/// Runtime value of the unmapped-slot marker.
pub fn sentinel_offset() -> (s: Vec3i)
    ensures
        s == spec_sentinel_offset(),
{
    Vec3i { x: i32::MIN, y: i32::MIN, z: i32::MIN }
}

/// The chunk-space offset of the chunk owning world position `p`:
/// euclidean floor division, so negative coordinates land in the correct
/// negative chunk.
pub open spec fn spec_owner_offset(p: Vec3i) -> Vec3i {
    Vec3i {
        x: (p.x as int / CHUNK_AREA as int) as i32,
        y: (p.y as int / CHUNK_Y_SIZE as int) as i32,
        z: (p.z as int / CHUNK_AREA as int) as i32,
    }
}

/// The local coordinate of world position `p` inside its owning chunk:
/// euclidean remainders, horizontal in `0 .. CHUNK_AREA`, vertical in
/// `0 .. CHUNK_Y_SIZE`.
pub open spec fn spec_owner_local(p: Vec3i) -> Vec3i {
    Vec3i {
        x: (p.x as int % CHUNK_AREA as int) as i32,
        y: (p.y as int % CHUNK_Y_SIZE as int) as i32,
        z: (p.z as int % CHUNK_AREA as int) as i32,
    }
}

/// The flat index of world position `p` inside its owning chunk's padded
/// grid (the local coordinate moved into the padded frame).
pub open spec fn spec_interior_index(p: Vec3i) -> int {
    let l = spec_owner_local(p);
    spec_chunk_index(l.y as int, l.x + 1, l.z + 1)
}

/// The offsets of the neighbouring chunks whose padding mirrors world
/// position `p`: the horizontal neighbour across each border the local
/// coordinate touches, x before z, as the edit propagation visits them.
pub open spec fn spec_neighbor_offsets(p: Vec3i) -> Seq<Vec3i> {
    let o = spec_owner_offset(p);
    let l = spec_owner_local(p);
    (if l.x == 0 {
        seq![Vec3i { x: (o.x - 1) as i32, y: o.y, z: o.z }]
    } else if l.x == CHUNK_AREA - 1 {
        seq![Vec3i { x: (o.x + 1) as i32, y: o.y, z: o.z }]
    } else {
        Seq::empty()
    }) + (if l.z == 0 {
        seq![Vec3i { x: o.x, y: o.y, z: (o.z - 1) as i32 }]
    } else if l.z == CHUNK_AREA - 1 {
        seq![Vec3i { x: o.x, y: o.y, z: (o.z + 1) as i32 }]
    } else {
        Seq::empty()
    })
}

/// The flat index of the padding voxel of the chunk at `neighbor_offset`
/// that mirrors world position `p`.
pub open spec fn spec_padding_index(p: Vec3i, neighbor_offset: Vec3i) -> int {
    let lx = p.x - neighbor_offset.x * CHUNK_AREA;
    let ly = p.y - neighbor_offset.y * CHUNK_Y_SIZE;
    let lz = p.z - neighbor_offset.z * CHUNK_AREA;
    spec_chunk_index(ly, lx + 1, lz + 1)
}

/// A fixed collection of chunk slots with the offset-to-slot index.
pub struct ChunkManager {
    /// The chunk of each slot.
    pub chunks: Vec<Chunk>,
    /// The chunk-space offset each slot is mapped at;
    /// the sentinel where the slot is unmapped.
    pub index_offset: Vec<Vec3i>,
}

impl ChunkManager {
    /// Structural well-formedness: one offset entry per slot, every chunk
    /// well-formed, mapped offsets inside the supported range, and at
    /// most one slot mapped to any offset.
    pub open spec fn wf(self) -> bool {
        &&& self.chunks@.len() == self.index_offset@.len()
        &&& forall|i: int| 0 <= i < self.chunks@.len() ==> (#[trigger] self.chunks@[i]).wf()
        &&& forall|i: int|
            0 <= i < self.index_offset@.len() ==> #[trigger] self.index_offset@[i]
                == spec_sentinel_offset() || offset_in_range(self.index_offset@[i])
        &&& forall|i: int, j: int|
            0 <= i < self.index_offset@.len() && 0 <= j < self.index_offset@.len() && i != j
                && #[trigger] self.index_offset@[i] != spec_sentinel_offset()
                ==> self.index_offset@[i] != #[trigger] self.index_offset@[j]
    }

    /// Whether some slot is mapped at `offset`.
    pub open spec fn spec_has_offset(self, offset: Vec3i) -> bool {
        offset != spec_sentinel_offset() && exists|i: int|
            0 <= i < self.index_offset@.len() && self.index_offset@[i] == offset
    }

    /// The slot mapped at `offset`, where one is.
    pub open spec fn spec_slot_of(self, offset: Vec3i) -> int {
        choose|i: int| 0 <= i < self.index_offset@.len() && self.index_offset@[i] == offset
    }

    pub fn new() -> (m: ChunkManager)
        ensures
            m.wf(),
            m.chunks@.len() == 0,
            m.index_offset@.len() == 0,
    {
        ChunkManager { chunks: Vec::new(), index_offset: Vec::new() }
    }

    /// Append a chunk in a fresh, unmapped slot.
    pub fn add_chunk(&mut self, chunk: Chunk)
        requires
            old(self).wf(),
            chunk.wf(),
        ensures
            final(self).wf(),
            final(self).chunks@ == old(self).chunks@.push(chunk),
            final(self).index_offset@ == old(self).index_offset@.push(spec_sentinel_offset()),
    {
        self.index_offset.push(sentinel_offset());
        self.chunks.push(chunk);
    }

    /// Borrow the chunk in slot `index`, or `None` past the end.
    pub fn get_chunk(&self, index: usize) -> (r: Option<&Chunk>)
        ensures
            index < self.chunks@.len() ==> match r {
                Some(c) => c == &self.chunks@[index as int],
                None => false,
            },
            index >= self.chunks@.len() ==> r is None,
    {
        if index < self.chunks.len() {
            Some(&self.chunks[index])
        } else {
            None
        }
    }

    /// The slot currently mapped at `offset`, if any; a linear scan of
    /// the per-slot offsets.
    pub fn get_chunk_index_by_offset(&self, offset: &Vec3i) -> (r: Option<usize>)
        requires
            self.wf(),
        ensures
            match r {
                Some(i) => self.spec_has_offset(*offset) && i == self.spec_slot_of(*offset) && i
                    < self.index_offset@.len() && self.index_offset@[i as int] == *offset,
                None => !self.spec_has_offset(*offset),
            },
    {
        let sentinel = sentinel_offset();
        if *offset == sentinel {
            return None;
        }
        let n = self.index_offset.len();
        let mut i: usize = 0;
        while i < n
            invariant
                self.wf(),
                n == self.index_offset@.len(),
                i <= n,
                *offset != spec_sentinel_offset(),
                forall|j: int| 0 <= j < i ==> self.index_offset@[j] != *offset,
            decreases n - i,
        {
            if self.index_offset[i] == *offset {
                proof {
                    let w = self.spec_slot_of(*offset);
                    assert(self.index_offset@[w] == *offset);
                    assert(w == i as int);
                }
                return Some(i);
            }
            i = i + 1;
        }
        None
    }

    /// Map slot `index` at `new_offset`, unmapping any slot previously
    /// holding that offset and re-homing the slot's chunk there.
    pub fn update_chunk_offset(&mut self, index: usize, new_offset: Vec3i)
        requires
            old(self).wf(),
            index < old(self).chunks@.len(),
            offset_in_range(new_offset),
        ensures
            final(self).wf(),
            final(self).index_offset@.len() == old(self).index_offset@.len(),
            final(self).index_offset@[index as int] == new_offset,
            forall|j: int|
                0 <= j < old(self).index_offset@.len() && j != index
                    ==> #[trigger] final(self).index_offset@[j] == (if old(self).index_offset@[j]
                    == new_offset {
                    spec_sentinel_offset()
                } else {
                    old(self).index_offset@[j]
                }),
            final(self).chunks@.len() == old(self).chunks@.len(),
            forall|j: int|
                0 <= j < old(self).chunks@.len() && j != index
                    ==> #[trigger] final(self).chunks@[j] == old(self).chunks@[j],
            final(self).chunks@[index as int].offset == new_offset,
            final(self).chunks@[index as int].blocks == old(self).chunks@[index as int].blocks,
            final(self).chunks@[index as int].mesh == old(self).chunks@[index as int].mesh,
            final(self).chunks@[index as int].dirty == old(self).chunks@[index as int].dirty,
            final(self).chunks@[index as int].needs_save == old(self).chunks@[index as int].needs_save,
            final(self).chunks@[index as int].layer_meshes == old(self).chunks@[index as int].layer_meshes,
            final(self).chunks@[index as int].layer_dirty == old(self).chunks@[index as int].layer_dirty,
            final(self).chunks@[index as int].layer_spans == old(self).chunks@[index as int].layer_spans,
            final(self).chunks@[index as int].layout_changed == old(self).chunks@[index as int].layout_changed,
            final(self).chunks@[index as int].rebuilt_layers == old(self).chunks@[index as int].rebuilt_layers,
            final(self).chunks@[index as int].dirty_y_range == old(self).chunks@[index as int].dirty_y_range,
    {
        let sentinel = sentinel_offset();
        let n = self.index_offset.len();
        let mut j: usize = 0;
        while j < n
            invariant
                n == self.index_offset@.len(),
                n == old(self).index_offset@.len(),
                j <= n,
                sentinel == spec_sentinel_offset(),
                offset_in_range(new_offset),
                self.chunks == old(self).chunks,
                forall|k: int|
                    0 <= k < j ==> #[trigger] self.index_offset@[k] == (if old(self).index_offset@[k]
                        == new_offset {
                        spec_sentinel_offset()
                    } else {
                        old(self).index_offset@[k]
                    }),
                forall|k: int| j <= k < n ==> self.index_offset@[k] == old(self).index_offset@[k],
            decreases n - j,
        {
            if self.index_offset[j] == new_offset {
                self.index_offset[j] = sentinel;
            }
            j = j + 1;
        }
        self.index_offset[index] = new_offset;
        self.chunks[index].offset = new_offset;
    }

    /// Unmap slot `index`, leaving its chunk in place for reuse.
    pub fn remove_chunk_from_map(&mut self, index: usize)
        requires
            old(self).wf(),
            index < old(self).index_offset@.len(),
        ensures
            final(self).wf(),
            final(self).chunks == old(self).chunks,
            final(self).index_offset@ == old(self).index_offset@.update(
                index as int,
                spec_sentinel_offset(),
            ),
    {
        self.index_offset[index] = sentinel_offset();
    }
}

} // verus!

verus! {

/// What a read of world position `p` returns: the stored material where
/// the owning chunk is resident, nothing otherwise.
pub open spec fn spec_get_block_material(m: ChunkManager, p: Vec3i) -> Option<MaterialType> {
    let owner = spec_owner_offset(p);
    if m.spec_has_offset(owner) {
        Some(m.chunks@[m.spec_slot_of(owner)].blocks@[spec_interior_index(p)].material_type)
    } else {
        None
    }
}

/// The owning chunk after an edit at world position `p`: the interior
/// voxel overwritten, the chunk marked dirty and needing save, and the
/// one-layer dirty band around the edited layer recorded.
pub open spec fn spec_owner_chunk_edited(c: Chunk, pre: Chunk, p: Vec3i, m: MaterialType) -> bool {
    let ly = spec_owner_local(p).y as int;
    &&& c.blocks@ == pre.blocks@.update(spec_interior_index(p), Block { material_type: m })
    &&& c.offset == pre.offset
    &&& c.mesh == pre.mesh
    &&& c.dirty == true
    &&& c.needs_save == true
    &&& c.layer_meshes == pre.layer_meshes
    &&& c.layer_dirty@.len() == CHUNK_Y_SIZE
    &&& forall|j: int|
        0 <= j < CHUNK_Y_SIZE ==> #[trigger] c.layer_dirty@[j] == (pre.layer_dirty@[j]
            || spec_dirty_band_lo(ly) <= j <= spec_dirty_band_hi(ly))
    &&& c.layer_spans == pre.layer_spans
    &&& c.layout_changed == pre.layout_changed
    &&& c.rebuilt_layers == pre.rebuilt_layers
    &&& c.dirty_y_range == Some(spec_merged_dirty_range(pre.dirty_y_range, ly))
}

/// A neighbouring chunk after the propagated padding update: the padding
/// voxel mirroring `p` overwritten, the chunk marked dirty and needing
/// save, and the dirty band recorded.
pub open spec fn spec_neighbor_chunk_edited(
    c: Chunk,
    pre: Chunk,
    p: Vec3i,
    neighbor_offset: Vec3i,
    m: MaterialType,
) -> bool {
    let ly = p.y - neighbor_offset.y * CHUNK_Y_SIZE;
    &&& c.blocks@ == pre.blocks@.update(
        spec_padding_index(p, neighbor_offset),
        Block { material_type: m },
    )
    &&& c.offset == pre.offset
    &&& c.mesh == pre.mesh
    &&& c.dirty == true
    &&& c.needs_save == true
    &&& c.layer_meshes == pre.layer_meshes
    &&& c.layer_dirty@.len() == CHUNK_Y_SIZE
    &&& forall|j: int|
        0 <= j < CHUNK_Y_SIZE ==> #[trigger] c.layer_dirty@[j] == (pre.layer_dirty@[j]
            || spec_dirty_band_lo(ly) <= j <= spec_dirty_band_hi(ly))
    &&& c.layer_spans == pre.layer_spans
    &&& c.layout_changed == pre.layout_changed
    &&& c.rebuilt_layers == pre.rebuilt_layers
    &&& c.dirty_y_range == Some(spec_merged_dirty_range(pre.dirty_y_range, ly))
}

/// The slots of the given offsets that are resident, in order.
pub open spec fn spec_mapped_slots(pre: ChunkManager, offs: Seq<Vec3i>) -> Seq<usize>
    decreases offs.len(),
{
    if offs.len() == 0 {
        Seq::empty()
    } else {
        (if pre.spec_has_offset(offs[0]) {
            seq![pre.spec_slot_of(offs[0]) as usize]
        } else {
            Seq::<usize>::empty()
        }) + spec_mapped_slots(pre, offs.drop_first())
    }
}

/// Extending the offset list by one extends the mapped-slot list by that
/// offset's slot, where it is resident.
pub proof fn lemma_mapped_slots_snoc(pre: ChunkManager, offs: Seq<Vec3i>, k: int)
    requires
        0 <= k < offs.len(),
    ensures
        spec_mapped_slots(pre, offs.take(k + 1)) == spec_mapped_slots(pre, offs.take(k)) + (
        if pre.spec_has_offset(offs[k]) {
            seq![pre.spec_slot_of(offs[k]) as usize]
        } else {
            Seq::<usize>::empty()
        }),
    decreases k,
{
    let a = offs.take(k + 1);
    let b = offs.take(k);
    if k == 0 {
        assert(a.len() == 1 && a[0] == offs[0]);
        assert(a.drop_first() =~= Seq::<Vec3i>::empty());
        assert(b =~= Seq::<Vec3i>::empty());
        assert(spec_mapped_slots(pre, a) =~= spec_mapped_slots(pre, b) + (
        if pre.spec_has_offset(offs[0]) {
            seq![pre.spec_slot_of(offs[0]) as usize]
        } else {
            Seq::<usize>::empty()
        }));
    } else {
        lemma_mapped_slots_snoc(pre, offs.drop_first(), k - 1);
        assert(a.drop_first() =~= offs.drop_first().take(k));
        assert(b.drop_first() =~= offs.drop_first().take(k - 1));
        assert(a[0] == offs[0] && b[0] == offs[0]);
        assert(offs.drop_first()[k - 1] == offs[k]);
        assert(spec_mapped_slots(pre, a) =~= spec_mapped_slots(pre, b) + (
        if pre.spec_has_offset(offs[k]) {
            seq![pre.spec_slot_of(offs[k]) as usize]
        } else {
            Seq::<usize>::empty()
        }));
    }
}

/// Whether slot `s` is the resident slot of one of `p`'s propagation
/// neighbours.
pub open spec fn spec_is_neighbor_slot(pre: ChunkManager, p: Vec3i, s: int) -> bool {
    exists|k: int|
        0 <= k < spec_neighbor_offsets(p).len() && pre.spec_has_offset(
            #[trigger] spec_neighbor_offsets(p)[k],
        ) && s == pre.spec_slot_of(spec_neighbor_offsets(p)[k])
}

/// Everything one `set_block_material` call promises. When the owning
/// chunk is not resident nothing changes and no slot is touched. When it
/// is, the owner's interior voxel and every resident neighbour's padding
/// voxel take the new material with their dirty state updated, every
/// other slot is untouched, the spatial index is untouched, and the
/// returned list names the owner and then the updated neighbours.
pub open spec fn spec_edit_relation(
    pre: ChunkManager,
    post: ChunkManager,
    p: Vec3i,
    m: MaterialType,
    touched: Seq<usize>,
) -> bool {
    let owner = spec_owner_offset(p);
    if !pre.spec_has_offset(owner) {
        &&& post.chunks == pre.chunks
        &&& post.index_offset == pre.index_offset
        &&& touched == Seq::<usize>::empty()
    } else {
        let i = pre.spec_slot_of(owner);
        let neighbors = spec_neighbor_offsets(p);
        &&& post.index_offset == pre.index_offset
        &&& post.chunks@.len() == pre.chunks@.len()
        &&& spec_owner_chunk_edited(post.chunks@[i], pre.chunks@[i], p, m)
        &&& forall|k: int|
            0 <= k < neighbors.len() && pre.spec_has_offset(#[trigger] neighbors[k])
                ==> spec_neighbor_chunk_edited(
                post.chunks@[pre.spec_slot_of(neighbors[k])],
                pre.chunks@[pre.spec_slot_of(neighbors[k])],
                p,
                neighbors[k],
                m,
            )
        &&& forall|s: int|
            0 <= s < pre.chunks@.len() && s != i && !spec_is_neighbor_slot(pre, p, s)
                ==> #[trigger] post.chunks@[s] == pre.chunks@[s]
        &&& touched == seq![i as usize] + spec_mapped_slots(pre, neighbors)
    }
}

} // verus!

verus! {

impl ChunkManager {
    /// The material stored at world position `p`, or `None` when the
    /// owning chunk is not resident.
    pub fn get_block_material(&self, world_pos: Vec3i) -> (r: Option<MaterialType>)
        requires
            self.wf(),
            edit_pos_in_range(world_pos),
        ensures
            r == spec_get_block_material(*self, world_pos),
    {
        let chunk_offset = Vec3i {
            x: div_floor(world_pos.x, CHUNK_AREA as i32),
            y: div_floor(world_pos.y, CHUNK_Y_SIZE as i32),
            z: div_floor(world_pos.z, CHUNK_AREA as i32),
        };
        let local_x = rem_floor(world_pos.x, CHUNK_AREA as i32);
        let local_y = rem_floor(world_pos.y, CHUNK_Y_SIZE as i32);
        let local_z = rem_floor(world_pos.z, CHUNK_AREA as i32);
        proof {
            assert(chunk_offset == spec_owner_offset(world_pos));
        }

        let x = local_x + 1;
        let z = local_z + 1;
        let y = local_y;

        if !crate::chunk::pos_in_chunk_bounds(Vec3i { x, y, z }) {
            return None;
        }

        match self.get_chunk_index_by_offset(&chunk_offset) {
            Some(index) => {
                let r = self.chunks[index].get_block(y as usize, x as usize, z as usize);
                proof {
                    assert(spec_grid_pos_in_bounds(y as int, x as int, z as int));
                    assert(spec_chunk_index(y as int, x as int, z as int)
                        == spec_interior_index(world_pos));
                }
                r
            },
            None => None,
        }
    }

    /// Write `material` into the voxel at world position `p`, marking the
    /// owning chunk dirty and needing save, and mirroring the write into
    /// the padding ring of every resident neighbour sharing that border.
    /// Returns the slots touched: the owner first, then the neighbours.
    /// When the owning chunk is not resident nothing happens and the list
    /// is empty.
    pub fn set_block_material(&mut self, world_pos: Vec3i, material: MaterialType) -> (r: Vec<
        usize,
    >)
        requires
            old(self).wf(),
            edit_pos_in_range(world_pos),
        ensures
            final(self).wf(),
            spec_edit_relation(*old(self), *final(self), world_pos, material, r@),
    {
        let ghost pre = *old(self);
        let chunk_offset = Vec3i {
            x: div_floor(world_pos.x, CHUNK_AREA as i32),
            y: div_floor(world_pos.y, CHUNK_Y_SIZE as i32),
            z: div_floor(world_pos.z, CHUNK_AREA as i32),
        };
        let local_x = rem_floor(world_pos.x, CHUNK_AREA as i32);
        let local_y = rem_floor(world_pos.y, CHUNK_Y_SIZE as i32);
        let local_z = rem_floor(world_pos.z, CHUNK_AREA as i32);
        proof {
            assert(chunk_offset == spec_owner_offset(world_pos));
            assert(local_x == spec_owner_local(world_pos).x);
            assert(local_y == spec_owner_local(world_pos).y);
            assert(local_z == spec_owner_local(world_pos).z);
        }

        let x = local_x + 1;
        let z = local_z + 1;
        let y = local_y;

        if !crate::chunk::pos_in_chunk_bounds(Vec3i { x, y, z }) {
            return Vec::new();
        }

        let mut neighbor_offsets: Vec<Vec3i> = Vec::new();
        if local_x == 0 {
            neighbor_offsets.push(
                Vec3i { x: chunk_offset.x - 1, y: chunk_offset.y, z: chunk_offset.z },
            );
        } else if local_x == CHUNK_AREA as i32 - 1 {
            neighbor_offsets.push(
                Vec3i { x: chunk_offset.x + 1, y: chunk_offset.y, z: chunk_offset.z },
            );
        }
        if local_z == 0 {
            neighbor_offsets.push(
                Vec3i { x: chunk_offset.x, y: chunk_offset.y, z: chunk_offset.z - 1 },
            );
        } else if local_z == CHUNK_AREA as i32 - 1 {
            neighbor_offsets.push(
                Vec3i { x: chunk_offset.x, y: chunk_offset.y, z: chunk_offset.z + 1 },
            );
        }
        proof {
            assert(neighbor_offsets@ =~= spec_neighbor_offsets(world_pos));
        }

        let mut touched: Vec<usize> = Vec::new();
        let owner_lookup = self.get_chunk_index_by_offset(&chunk_offset);
        match owner_lookup {
            Some(index) => {
                let ghost i = pre.spec_slot_of(spec_owner_offset(world_pos));
                proof {
                    assert(i == index as int);
                }
                let updated = self.chunks[index].set_block(
                    y as usize,
                    x as usize,
                    z as usize,
                    material,
                );
                self.chunks[index].dirty = true;
                self.chunks[index].needs_save = true;
                self.chunks[index].mark_dirty_y(y as usize);
                touched.push(index);
                proof {
                    assert(spec_chunk_index(y as int, x as int, z as int)
                        == spec_interior_index(world_pos));
                    assert(spec_owner_chunk_edited(
                        self.chunks@[i],
                        pre.chunks@[i],
                        world_pos,
                        material,
                    ));
                }

                let n_neigh = neighbor_offsets.len();
                let mut k: usize = 0;
                while k < n_neigh
                    invariant
                        self.wf(),
                        pre.wf(),
                        edit_pos_in_range(world_pos),
                        k <= n_neigh,
                        n_neigh == neighbor_offsets@.len(),
                        n_neigh <= 2,
                        neighbor_offsets@ == spec_neighbor_offsets(world_pos),
                        chunk_offset == spec_owner_offset(world_pos),
                        local_y == spec_owner_local(world_pos).y,
                        pre.spec_has_offset(chunk_offset),
                        i == pre.spec_slot_of(chunk_offset),
                        0 <= i < pre.chunks@.len(),
                        self.index_offset == pre.index_offset,
                        self.chunks@.len() == pre.chunks@.len(),
                        spec_owner_chunk_edited(
                            self.chunks@[i],
                            pre.chunks@[i],
                            world_pos,
                            material,
                        ),
                        forall|kk: int|
                            0 <= kk < k && pre.spec_has_offset(#[trigger] neighbor_offsets@[kk])
                                ==> spec_neighbor_chunk_edited(
                                self.chunks@[pre.spec_slot_of(neighbor_offsets@[kk])],
                                pre.chunks@[pre.spec_slot_of(neighbor_offsets@[kk])],
                                world_pos,
                                neighbor_offsets@[kk],
                                material,
                            ),
                        forall|s: int|
                            0 <= s < pre.chunks@.len() && s != i && !(exists|kk: int|
                                0 <= kk < k && pre.spec_has_offset(
                                    #[trigger] neighbor_offsets@[kk],
                                ) && s == pre.spec_slot_of(neighbor_offsets@[kk]))
                                ==> #[trigger] self.chunks@[s] == pre.chunks@[s],
                        touched@ == seq![index] + spec_mapped_slots(
                            pre,
                            neighbor_offsets@.take(k as int),
                        ),
                        index as int == i,
                    decreases n_neigh - k,
                {
                    let noff = neighbor_offsets[k];
                    let neighbor_lookup = self.get_chunk_index_by_offset(&noff);
                    proof {
                        assert(self.spec_has_offset(noff) == pre.spec_has_offset(noff));
                        if pre.spec_has_offset(noff) {
                            assert(self.spec_slot_of(noff) == pre.spec_slot_of(noff));
                        }
                        lemma_mapped_slots_snoc(pre, neighbor_offsets@, k as int);
                    }
                    match neighbor_lookup {
                        Some(nidx) => {
                            proof {
                                assert(noff != chunk_offset);
                                assert(nidx as int != i);
                            }
                            proof {
                                assert(noff.y == chunk_offset.y && (noff.x == chunk_offset.x
                                    || noff.x == chunk_offset.x - 1 || noff.x == chunk_offset.x
                                    + 1) && (noff.z == chunk_offset.z || noff.z == chunk_offset.z
                                    - 1 || noff.z == chunk_offset.z + 1));
                                vstd::arithmetic::div_mod::lemma_div_is_ordered(
                                    world_pos.x as int,
                                    EDIT_COORD_LIMIT as int,
                                    CHUNK_AREA as int,
                                );
                                vstd::arithmetic::div_mod::lemma_div_is_ordered(
                                    -EDIT_COORD_LIMIT as int,
                                    world_pos.x as int,
                                    CHUNK_AREA as int,
                                );
                                vstd::arithmetic::div_mod::lemma_div_is_ordered(
                                    world_pos.y as int,
                                    EDIT_COORD_LIMIT as int,
                                    CHUNK_Y_SIZE as int,
                                );
                                vstd::arithmetic::div_mod::lemma_div_is_ordered(
                                    -EDIT_COORD_LIMIT as int,
                                    world_pos.y as int,
                                    CHUNK_Y_SIZE as int,
                                );
                                vstd::arithmetic::div_mod::lemma_div_is_ordered(
                                    world_pos.z as int,
                                    EDIT_COORD_LIMIT as int,
                                    CHUNK_AREA as int,
                                );
                                vstd::arithmetic::div_mod::lemma_div_is_ordered(
                                    -EDIT_COORD_LIMIT as int,
                                    world_pos.z as int,
                                    CHUNK_AREA as int,
                                );
                                assert(chunk_offset.x as int == world_pos.x as int / (
                                CHUNK_AREA as int));
                                assert(chunk_offset.y as int == world_pos.y as int / (
                                CHUNK_Y_SIZE as int));
                                assert(chunk_offset.z as int == world_pos.z as int / (
                                CHUNK_AREA as int));
                                assert(-1048576 <= noff.x <= 1048576);
                                assert(-32769 <= noff.y <= 32768);
                                assert(-1048576 <= noff.z <= 1048576);
                            }
                            let pnx = world_pos.x - noff.x * 16;
                            let pny = world_pos.y - noff.y * 512;
                            let pnz = world_pos.z - noff.z * 16;
                            proof {
                                assert(noff.y == chunk_offset.y);
                                vstd::arithmetic::div_mod::lemma_fundamental_div_mod(
                                    world_pos.y as int,
                                    CHUNK_Y_SIZE as int,
                                );
                                assert(pny == local_y);
                                assert(-1 <= pnx <= CHUNK_AREA);
                                assert(-1 <= pnz <= CHUNK_AREA);
                                assert(spec_grid_pos_in_bounds(
                                    pny as int,
                                    pnx as int + 1,
                                    pnz as int + 1,
                                ));
                                assert(spec_chunk_index(pny as int, pnx as int + 1, pnz as int + 1)
                                    == spec_padding_index(world_pos, noff));
                            }
                            let updated_pad = self.chunks[nidx].set_block(
                                pny as usize,
                                (pnx + 1) as usize,
                                (pnz + 1) as usize,
                                material,
                            );
                            self.chunks[nidx].mark_dirty_y(pny as usize);
                            self.chunks[nidx].needs_save = true;
                            self.chunks[nidx].dirty = true;
                            touched.push(nidx);
                            proof {
                                assert(spec_neighbor_chunk_edited(
                                    self.chunks@[nidx as int],
                                    pre.chunks@[nidx as int],
                                    world_pos,
                                    noff,
                                    material,
                                ));
                                assert(touched@ =~= seq![index] + spec_mapped_slots(
                                    pre,
                                    neighbor_offsets@.take(k as int + 1),
                                ));
                            }
                        },
                        None => {
                            proof {
                                assert(touched@ =~= seq![index] + spec_mapped_slots(
                                    pre,
                                    neighbor_offsets@.take(k as int + 1),
                                ));
                            }
                        },
                    }
                    k = k + 1;
                }
                proof {
                    assert(neighbor_offsets@.take(n_neigh as int) =~= neighbor_offsets@);
                    assert forall|s: int|
                        0 <= s < pre.chunks@.len() && s != i && !spec_is_neighbor_slot(
                            pre,
                            world_pos,
                            s,
                        ) implies #[trigger] self.chunks@[s] == pre.chunks@[s] by {}
                }
                touched
            },
            None => {
                Vec::new()
            },
        }
    }
}

} // verus!

verus! {

/// Padding consistency: after an edit on a shared border and its
/// propagated neighbour update, the owning chunk's interior voxel and
/// the neighbouring chunk's padding voxel that mirror the same world
/// position hold the same material — the written one.
pub proof fn lemma_padding_consistency(
    pre: ChunkManager,
    post: ChunkManager,
    p: Vec3i,
    m: MaterialType,
    touched: Seq<usize>,
    neighbor_offset: Vec3i,
    k: int,
)
    requires
        pre.wf(),
        edit_pos_in_range(p),
        spec_edit_relation(pre, post, p, m, touched),
        pre.spec_has_offset(spec_owner_offset(p)),
        0 <= k < spec_neighbor_offsets(p).len(),
        neighbor_offset == spec_neighbor_offsets(p)[k],
        pre.spec_has_offset(neighbor_offset),
    ensures
        post.chunks@[pre.spec_slot_of(spec_owner_offset(p))].blocks@[spec_interior_index(
            p,
        )].material_type == m,
        post.chunks@[pre.spec_slot_of(neighbor_offset)].blocks@[spec_padding_index(
            p,
            neighbor_offset,
        )].material_type == m,
{
    let i = pre.spec_slot_of(spec_owner_offset(p));
    let n = pre.spec_slot_of(neighbor_offset);
    vstd::arithmetic::div_mod::lemma_mod_bound(p.x as int, CHUNK_AREA as int);
    vstd::arithmetic::div_mod::lemma_mod_bound(p.y as int, CHUNK_Y_SIZE as int);
    vstd::arithmetic::div_mod::lemma_mod_bound(p.z as int, CHUNK_AREA as int);
    let l = spec_owner_local(p);
    lemma_chunk_index_coords(l.y as int, l.x + 1, l.z + 1);
    assert(spec_owner_chunk_edited(post.chunks@[i], pre.chunks@[i], p, m));
    assert(pre.chunks@[i].wf());
    assert(post.chunks@[i].blocks@[spec_interior_index(p)] == (Block { material_type: m }));
    assert(spec_neighbor_chunk_edited(post.chunks@[n], pre.chunks@[n], p, neighbor_offset, m));
    vstd::arithmetic::div_mod::lemma_fundamental_div_mod(p.x as int, CHUNK_AREA as int);
    vstd::arithmetic::div_mod::lemma_fundamental_div_mod(p.y as int, CHUNK_Y_SIZE as int);
    vstd::arithmetic::div_mod::lemma_fundamental_div_mod(p.z as int, CHUNK_AREA as int);
    let plx = p.x - neighbor_offset.x * CHUNK_AREA;
    let ply = p.y - neighbor_offset.y * CHUNK_Y_SIZE;
    let plz = p.z - neighbor_offset.z * CHUNK_AREA;
    assert(spec_grid_pos_in_bounds(ply, plx + 1, plz + 1));
    lemma_chunk_index_coords(ply, plx + 1, plz + 1);
    assert(pre.chunks@[n].wf());
    assert(post.chunks@[n].blocks@[spec_padding_index(p, neighbor_offset)] == (Block {
        material_type: m,
    }));
}

/// Read after write: immediately after an edit whose owning chunk is
/// resident, reading the same world position returns the written
/// material — before any remesh, since reads go to the block array, not
/// the mesh.
pub proof fn lemma_read_after_write(
    pre: ChunkManager,
    post: ChunkManager,
    p: Vec3i,
    m: MaterialType,
    touched: Seq<usize>,
)
    requires
        pre.wf(),
        edit_pos_in_range(p),
        spec_edit_relation(pre, post, p, m, touched),
        pre.spec_has_offset(spec_owner_offset(p)),
    ensures
        spec_get_block_material(post, p) == Some(m),
{
    let owner = spec_owner_offset(p);
    let i = pre.spec_slot_of(owner);
    assert(post.index_offset@ == pre.index_offset@);
    assert(post.spec_has_offset(owner));
    let i2 = post.spec_slot_of(owner);
    assert(post.index_offset@[i2] == owner && post.index_offset@[i] == owner);
    assert(i2 == i);
    vstd::arithmetic::div_mod::lemma_mod_bound(p.x as int, CHUNK_AREA as int);
    vstd::arithmetic::div_mod::lemma_mod_bound(p.y as int, CHUNK_Y_SIZE as int);
    vstd::arithmetic::div_mod::lemma_mod_bound(p.z as int, CHUNK_AREA as int);
    let l = spec_owner_local(p);
    lemma_chunk_index_coords(l.y as int, l.x + 1, l.z + 1);
    assert(pre.chunks@[i].wf());
    assert(spec_owner_chunk_edited(post.chunks@[i], pre.chunks@[i], p, m));
    assert(post.chunks@[i].blocks@[spec_interior_index(p)] == (Block { material_type: m }));
}

} // verus!

verus! {

/// A resident offset's slot appears in the mapped-slot list.
proof fn lemma_mapped_slots_complete(pre: ChunkManager, offs: Seq<Vec3i>, k: int)
    requires
        0 <= k < offs.len(),
        pre.spec_has_offset(offs[k]),
    ensures
        spec_mapped_slots(pre, offs).contains(pre.spec_slot_of(offs[k]) as usize),
    decreases k,
{
    let slots = spec_mapped_slots(pre, offs);
    if k == 0 {
        assert(slots[0] == pre.spec_slot_of(offs[0]) as usize);
    } else {
        lemma_mapped_slots_complete(pre, offs.drop_first(), k - 1);
        assert(offs.drop_first()[k - 1] == offs[k]);
        let rest = spec_mapped_slots(pre, offs.drop_first());
        let j = choose|j: int|
            0 <= j < rest.len() && rest[j] == pre.spec_slot_of(offs[k]) as usize;
        let head = if pre.spec_has_offset(offs[0]) {
            seq![pre.spec_slot_of(offs[0]) as usize]
        } else {
            Seq::<usize>::empty()
        };
        assert(slots[head.len() + j] == pre.spec_slot_of(offs[k]) as usize);
    }
}

/// Neighbour propagation is visible to the caller: an edit on a border
/// returns, in its touched-slot list, the slot of every resident
/// neighbouring chunk whose padding mirrors the edited voxel.
pub proof fn lemma_border_edit_touches_neighbor(
    pre: ChunkManager,
    post: ChunkManager,
    p: Vec3i,
    m: MaterialType,
    touched: Seq<usize>,
    k: int,
)
    requires
        pre.wf(),
        edit_pos_in_range(p),
        spec_edit_relation(pre, post, p, m, touched),
        pre.spec_has_offset(spec_owner_offset(p)),
        0 <= k < spec_neighbor_offsets(p).len(),
        pre.spec_has_offset(spec_neighbor_offsets(p)[k]),
    ensures
        touched.contains(pre.spec_slot_of(spec_neighbor_offsets(p)[k]) as usize),
{
    let neighbors = spec_neighbor_offsets(p);
    lemma_mapped_slots_complete(pre, neighbors, k);
    let slots = spec_mapped_slots(pre, neighbors);
    let j = choose|j: int|
        0 <= j < slots.len() && slots[j] == pre.spec_slot_of(neighbors[k]) as usize;
    assert(touched[1 + j] == pre.spec_slot_of(neighbors[k]) as usize);
}

} // verus!
