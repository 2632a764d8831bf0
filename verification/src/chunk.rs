//! A chunk: a fixed-size voxel grid of `CHUNK_Y_SIZE` layers and a
//! `CHUNK_AREA` by `CHUNK_AREA` horizontal interior, with a one-voxel
//! padding ring on each horizontal side mirroring the neighbouring chunks'
//! edges. The grid is stored as one flat array indexed by
//! `y * padded * padded + x * padded + z`.
//!
//! The chunk also owns its CPU-side mesh, one cached mesh per horizontal
//! layer, per-layer dirty bits, and the bookkeeping that lets the
//! scheduler remesh only the layers an edit touched.
use vstd::prelude::*;

use crate::biomes::BiomeParameters;
use crate::block::{Block, BlockVertex, Direction, MaterialType};
use crate::coords::{offset_in_range, Vec3i, OFFSET_LIMIT};
use crate::noise::{spec_height, NoiseGenerator};

verus! {

/// Height of a chunk, in voxels (and the number of cached layer meshes).
pub const CHUNK_Y_SIZE: usize = 512;

/// Horizontal extent of a chunk's interior, in voxels.
pub const CHUNK_AREA: usize = 16;

/// Horizontal extent including the one-voxel padding ring on each side:
/// `CHUNK_AREA + 2`.
pub const CHUNK_AREA_WITH_PADDING: usize = 18;

/// Number of voxels in the padded grid:
/// `CHUNK_Y_SIZE * CHUNK_AREA_WITH_PADDING * CHUNK_AREA_WITH_PADDING`.
pub const TOTAL_CHUNK_SIZE: usize = 165888;

/// The flat index of padded-grid position `(y, x, z)`.
pub open spec fn spec_chunk_index(y: int, x: int, z: int) -> int {
    y * (CHUNK_AREA_WITH_PADDING * CHUNK_AREA_WITH_PADDING) + x * CHUNK_AREA_WITH_PADDING + z
}

/// A padded-grid position: `y` over the full height, `x` and `z` over the
/// interior plus padding.
pub open spec fn spec_grid_pos_in_bounds(y: int, x: int, z: int) -> bool {
    0 <= y < CHUNK_Y_SIZE && 0 <= x < CHUNK_AREA_WITH_PADDING && 0 <= z < CHUNK_AREA_WITH_PADDING
}

/// Recover the grid coordinates packed into a flat index.
pub proof fn lemma_chunk_index_coords(y: int, x: int, z: int)
    requires
        spec_grid_pos_in_bounds(y, x, z),
    ensures
        0 <= spec_chunk_index(y, x, z) < TOTAL_CHUNK_SIZE,
        spec_chunk_index(y, x, z) / 324 == y,
        (spec_chunk_index(y, x, z) % 324) / 18 == x,
        spec_chunk_index(y, x, z) % 324 % 18 == z,
{
    let k = spec_chunk_index(y, x, z);
    let r = x * 18 + z;
    assert(0 <= r < 324);
    vstd::arithmetic::div_mod::lemma_fundamental_div_mod_converse(k, 324, y, r);
    vstd::arithmetic::div_mod::lemma_fundamental_div_mod_converse(r, 18, x, z);
}

/// Distinct in-bounds grid positions use distinct flat indices.
pub proof fn lemma_chunk_index_injective(y1: int, x1: int, z1: int, y2: int, x2: int, z2: int)
    requires
        spec_grid_pos_in_bounds(y1, x1, z1),
        spec_grid_pos_in_bounds(y2, x2, z2),
        spec_chunk_index(y1, x1, z1) == spec_chunk_index(y2, x2, z2),
    ensures
        y1 == y2 && x1 == x2 && z1 == z2,
{
    lemma_chunk_index_coords(y1, x1, z1);
    lemma_chunk_index_coords(y2, x2, z2);
}

/// A CPU-side mesh: vertices and triangle-list indices into them.
pub struct Mesh {
    pub verts: Vec<BlockVertex>,
    pub indices: Vec<u32>,
}

impl Mesh {
    pub fn new() -> (m: Mesh)
        ensures
            m.verts@ == Seq::<BlockVertex>::empty(),
            m.indices@ == Seq::<u32>::empty(),
    {
        Mesh { verts: Vec::new(), indices: Vec::new() }
    }
}

/// The cached mesh of one horizontal layer.
pub struct LayerMesh {
    pub verts: Vec<BlockVertex>,
    pub indices: Vec<u32>,
}

impl Default for LayerMesh {
    fn default() -> (m: LayerMesh)
        ensures
            m.verts@ == Seq::<BlockVertex>::empty(),
            m.indices@ == Seq::<u32>::empty(),
    {
        LayerMesh { verts: Vec::new(), indices: Vec::new() }
    }
}

/// Where one layer's slice of the concatenated chunk mesh starts and how
/// long it is, in both the vertex and the index stream.
#[derive(Clone, Copy, Debug, PartialEq, Eq, Structural)]
pub struct LayerSpan {
    pub v_start: u32,
    pub v_len: u32,
    pub i_start: u32,
    pub i_len: u32,
}

impl Default for LayerSpan {
    fn default() -> (s: LayerSpan)
        ensures
            s == LayerSpan::spec_default(),
    {
        LayerSpan { v_start: 0, v_len: 0, i_start: 0, i_len: 0 }
    }
}

/// A fixed-size voxel grid with its meshes and dirty tracking.
pub struct Chunk {
    /// The padded voxel grid, as a flat array.
    pub blocks: Vec<Block>,
    /// The chunk's position in the infinite chunk grid (chunk space, not
    /// world voxels).
    pub offset: Vec3i,
    /// The concatenated mesh of all layers, rebuilt by `update_mesh`.
    pub mesh: Mesh,
    /// Remesh work is pending somewhere in the chunk.
    pub dirty: bool,
    /// The content differs from what is on disk; set by edits, never by
    /// generation alone.
    pub needs_save: bool,
    /// One cached mesh per layer; consistent with `blocks` wherever
    /// `layer_dirty` is false.
    pub layer_meshes: Vec<LayerMesh>,
    /// Which layers still need remeshing.
    pub layer_dirty: Vec<bool>,
    /// Each layer's slice of the concatenated mesh.
    pub layer_spans: Vec<LayerSpan>,
    /// Whether the last remesh moved any layer's slice (so a GPU upload
    /// cannot reuse the old buffer layout).
    pub layout_changed: bool,
    /// The layers the last remesh rebuilt, in ascending order.
    pub rebuilt_layers: Vec<usize>,
    /// Inclusive range of layers touched since the last remesh.
    pub dirty_y_range: Option<(usize, usize)>,
}

impl Chunk {
    /// Structural well-formedness: every per-layer vector covers all
    /// layers, the grid is complete, and the offset is in the supported
    /// range.
    pub open spec fn wf(self) -> bool {
        &&& self.blocks@.len() == TOTAL_CHUNK_SIZE
        &&& self.layer_meshes@.len() == CHUNK_Y_SIZE
        &&& self.layer_dirty@.len() == CHUNK_Y_SIZE
        &&& self.layer_spans@.len() == CHUNK_Y_SIZE
        &&& offset_in_range(self.offset)
        &&& match self.dirty_y_range {
            Some((lo, hi)) => lo <= hi < CHUNK_Y_SIZE,
            None => true,
        }
        &&& forall|y: int| 0 <= y < CHUNK_Y_SIZE ==> spec_layer_mesh_bounded(#[trigger] self.layer_meshes@[y])
    }

    /// The material stored at flat index `k`.
    pub open spec fn spec_material_at(self, k: int) -> MaterialType {
        self.blocks@[k].material_type
    }

    /// Linear index of grid position `(y, x, z)` inside the chunk.
    pub fn calculate_index(&self, y: usize, x: usize, z: usize) -> (k: usize)
        requires
            spec_grid_pos_in_bounds(y as int, x as int, z as int),
        ensures
            k == spec_chunk_index(y as int, x as int, z as int),
            k < TOTAL_CHUNK_SIZE,
    {
        proof {
            lemma_chunk_index_coords(y as int, x as int, z as int);
        }
        y * (CHUNK_AREA_WITH_PADDING * CHUNK_AREA_WITH_PADDING) + x * CHUNK_AREA_WITH_PADDING + z
    }

    /// The material at grid position `(y, x, z)`, or `None` when the
    /// position is outside the padded grid.
    pub fn get_block(&self, y: usize, x: usize, z: usize) -> (r: Option<MaterialType>)
        requires
            self.wf(),
        ensures
            spec_grid_pos_in_bounds(y as int, x as int, z as int) ==> r == Some(
                self.spec_material_at(spec_chunk_index(y as int, x as int, z as int)),
            ),
            !spec_grid_pos_in_bounds(y as int, x as int, z as int) ==> r is None,
    {
        if y < CHUNK_Y_SIZE && x < CHUNK_AREA_WITH_PADDING && z < CHUNK_AREA_WITH_PADDING {
            let index = self.calculate_index(y, x, z);
            Some(self.blocks[index].material_type)
        } else {
            None
        }
    }

    /// Overwrite the material at grid position `(y, x, z)`. Returns
    /// whether the position was inside the padded grid (nothing changes
    /// when it is not).
    pub fn set_block(&mut self, y: usize, x: usize, z: usize, material: MaterialType) -> (updated:
        bool)
        requires
            old(self).wf(),
        ensures
            updated == spec_grid_pos_in_bounds(y as int, x as int, z as int),
            updated ==> final(self).blocks@ == old(self).blocks@.update(
                spec_chunk_index(y as int, x as int, z as int),
                Block { material_type: material },
            ),
            !updated ==> final(self).blocks@ == old(self).blocks@,
            final(self).offset == old(self).offset,
            final(self).mesh == old(self).mesh,
            final(self).dirty == old(self).dirty,
            final(self).needs_save == old(self).needs_save,
            final(self).layer_meshes == old(self).layer_meshes,
            final(self).layer_dirty == old(self).layer_dirty,
            final(self).layer_spans == old(self).layer_spans,
            final(self).layout_changed == old(self).layout_changed,
            final(self).rebuilt_layers == old(self).rebuilt_layers,
            final(self).dirty_y_range == old(self).dirty_y_range,
            final(self).wf(),
    {
        if y < CHUNK_Y_SIZE && x < CHUNK_AREA_WITH_PADDING && z < CHUNK_AREA_WITH_PADDING {
            let index = self.calculate_index(y, x, z);
            self.blocks[index] = Block { material_type: material };
            true
        } else {
            false
        }
    }
}

/// The material the chunk placed at grid `y` when it was constructed
/// empty: a debug column low in the chunk under air.
pub open spec fn spec_initial_material(y: int) -> MaterialType {
    if y <= 12 {
        MaterialType::DEBUG
    } else {
        MaterialType::AIR
    }
}

impl Chunk {
    /// Construct an empty chunk at `offset`, filled with the placeholder
    /// debug column, every layer marked dirty and nothing meshed yet.
    pub fn new(offset: Vec3i) -> (c: Chunk)
        requires
            offset_in_range(offset),
        ensures
            c.wf(),
            c.offset == offset,
            forall|k: int|
                0 <= k < TOTAL_CHUNK_SIZE ==> c.blocks@[k] == (Block {
                    material_type: spec_initial_material(k / 324),
                }),
            c.dirty == false,
            c.needs_save == false,
            forall|y: int| 0 <= y < CHUNK_Y_SIZE ==> c.layer_dirty@[y] == true,
            forall|y: int|
                0 <= y < CHUNK_Y_SIZE ==> #[trigger] c.layer_meshes@[y].verts@.len() == 0
                    && c.layer_meshes@[y].indices@.len() == 0,
            forall|y: int|
                0 <= y < CHUNK_Y_SIZE ==> #[trigger] c.layer_spans@[y] == LayerSpan::spec_default(),
            c.mesh.verts@.len() == 0,
            c.mesh.indices@.len() == 0,
            c.layout_changed == true,
            c.rebuilt_layers@.len() == CHUNK_Y_SIZE,
            forall|y: int| 0 <= y < CHUNK_Y_SIZE ==> #[trigger] c.rebuilt_layers@[y] == y,
            c.dirty_y_range is None,
    {
        let mut blocks: Vec<Block> = Vec::new();
        let mut k: usize = 0;
        while k < TOTAL_CHUNK_SIZE
            invariant
                k == blocks@.len(),
                k <= TOTAL_CHUNK_SIZE,
                forall|j: int|
                    0 <= j < k ==> blocks@[j] == (Block {
                        material_type: spec_initial_material(j / 324),
                    }),
            decreases TOTAL_CHUNK_SIZE - k,
        {
            let y = k / (CHUNK_AREA_WITH_PADDING * CHUNK_AREA_WITH_PADDING);
            let material_type = if y <= 12 {
                MaterialType::DEBUG
            } else {
                MaterialType::AIR
            };
            blocks.push(Block::new(material_type));
            k = k + 1;
        }
        let mut layer_meshes: Vec<LayerMesh> = Vec::new();
        let mut layer_dirty: Vec<bool> = Vec::new();
        let mut layer_spans: Vec<LayerSpan> = Vec::new();
        let mut rebuilt_layers: Vec<usize> = Vec::new();
        let mut y: usize = 0;
        while y < CHUNK_Y_SIZE
            invariant
                y == layer_meshes@.len(),
                y == layer_dirty@.len(),
                y == layer_spans@.len(),
                y == rebuilt_layers@.len(),
                y <= CHUNK_Y_SIZE,
                forall|j: int| 0 <= j < y ==> layer_dirty@[j] == true,
                forall|j: int|
                    0 <= j < y ==> #[trigger] layer_meshes@[j].verts@.len() == 0
                        && layer_meshes@[j].indices@.len() == 0,
                forall|j: int| 0 <= j < y ==> #[trigger] layer_spans@[j] == LayerSpan::spec_default(),
                forall|j: int| 0 <= j < y ==> #[trigger] rebuilt_layers@[j] == j,
            decreases CHUNK_Y_SIZE - y,
        {
            layer_meshes.push(LayerMesh::default());
            layer_dirty.push(true);
            layer_spans.push(LayerSpan::default());
            rebuilt_layers.push(y);
            y = y + 1;
        }
        Chunk {
            blocks,
            offset,
            mesh: Mesh::new(),
            dirty: false,
            needs_save: false,
            layer_meshes,
            layer_dirty,
            layer_spans,
            layout_changed: true,
            rebuilt_layers,
            dirty_y_range: None,
        }
    }
}

impl LayerSpan {
    /// The all-zero span `Default` produces.
    pub open spec fn spec_default() -> LayerSpan {
        LayerSpan { v_start: 0, v_len: 0, i_start: 0, i_len: 0 }
    }
}

/// World voxel coordinates of the voxel at `local_pos` inside the chunk
/// at chunk-space `offset`. The horizontal axes scale by the interior
/// extent, the vertical axis by the chunk height.
pub fn local_pos_to_world(offset: Vec3i, local_pos: Vec3i) -> (w: Vec3i)
    requires
        offset_in_range(offset),
        -1 <= local_pos.x <= CHUNK_AREA,
        0 <= local_pos.y < CHUNK_Y_SIZE,
        -1 <= local_pos.z <= CHUNK_AREA,
    ensures
        w.x == local_pos.x + offset.x * CHUNK_AREA,
        w.y == local_pos.y + offset.y * CHUNK_Y_SIZE,
        w.z == local_pos.z + offset.z * CHUNK_AREA,
{
    Vec3i {
        x: local_pos.x + offset.x * CHUNK_AREA as i32,
        y: local_pos.y + offset.y * CHUNK_Y_SIZE as i32,
        z: local_pos.z + offset.z * CHUNK_AREA as i32,
    }
}

/// The material generation places at padded-grid position `(y, x, z)` of
/// the chunk at `offset`: columns keep dirt well below the biome's base,
/// air above its reachable band; inside the band the seeded noise picks a
/// per-column surface height, with grass at the surface, water filling
/// empty space up to the land level, bedrock at world level zero, and
/// dirt below the surface.
pub open spec fn spec_generated_material(
    seed: u32,
    offset: Vec3i,
    biome: BiomeParameters,
    land_level: int,
    y: int,
    x: int,
    z: int,
) -> MaterialType {
    let max_biome_height = biome.base_height + biome.amplitude;
    if y > max_biome_height {
        MaterialType::AIR
    } else if y < biome.base_height - 1 {
        MaterialType::DIRT
    } else {
        let wx = (x - 1) + offset.x * CHUNK_AREA;
        let wz = (z - 1) + offset.z * CHUNK_AREA;
        let variation = spec_height(seed, wx, wz, biome.frequency as int, biome.amplitude as int);
        let surface = if biome.base_height + variation >= 0 {
            biome.base_height + variation
        } else {
            0
        };
        if y > surface {
            if y <= land_level {
                MaterialType::WATER
            } else {
                MaterialType::AIR
            }
        } else if y == surface {
            MaterialType::GRASS
        } else if y == 0 {
            MaterialType::ROCK
        } else {
            MaterialType::DIRT
        }
    }
}

/// `spec_generated_material` at the grid position packed into flat index
/// `k`.
pub open spec fn spec_generated_at(
    seed: u32,
    offset: Vec3i,
    biome: BiomeParameters,
    land_level: int,
    k: int,
) -> MaterialType {
    spec_generated_material(seed, offset, biome, land_level, k / 324, (k % 324) / 18, k % 324 % 18)
}

impl Chunk {
    /// Regenerate every voxel of the chunk (padding included, sampling the
    /// padding's true world columns) for the chunk at `offset`, and mark
    /// the whole chunk dirty. Generation alone does not set `needs_save`:
    /// only player edits require persistence.
    #[verifier::rlimit(80)]
    pub fn update_blocks(
        &mut self,
        offset: Vec3i,
        noise_generator: &NoiseGenerator,
        biome: &BiomeParameters,
        land_level: usize,
    )
        requires
            old(self).wf(),
            offset_in_range(offset),
            biome.wf(),
            land_level < CHUNK_Y_SIZE,
        ensures
            final(self).wf(),
            final(self).offset == offset,
            forall|y: int, x: int, z: int|
                spec_grid_pos_in_bounds(y, x, z) ==> final(self).blocks@[spec_chunk_index(
                    y,
                    x,
                    z,
                )] == (Block {
                    material_type: spec_generated_material(
                        noise_generator.seed,
                        offset,
                        *biome,
                        land_level as int,
                        y,
                        x,
                        z,
                    ),
                }),
            final(self).blocks@.len() == TOTAL_CHUNK_SIZE,
            final(self).dirty == true,
            final(self).dirty_y_range == Some((0usize, (CHUNK_Y_SIZE - 1) as usize)),
            forall|y: int| 0 <= y < CHUNK_Y_SIZE ==> final(self).layer_dirty@[y] == true,
            final(self).rebuilt_layers@.len() == CHUNK_Y_SIZE,
            forall|y: int| 0 <= y < CHUNK_Y_SIZE ==> #[trigger] final(self).rebuilt_layers@[y] == y,
            final(self).needs_save == false,
            final(self).mesh == old(self).mesh,
            final(self).layer_meshes == old(self).layer_meshes,
            final(self).layer_spans == old(self).layer_spans,
            final(self).layout_changed == old(self).layout_changed,
    {
        self.offset = offset;
        // A freshly generated chunk matches what regeneration would
        // produce, so it owes no save until a player edits it.
        self.needs_save = false;
        let max_biome_height = (biome.base_height + biome.amplitude) as usize;
        let ghost seed = noise_generator.seed;
        let ghost b = *biome;

        let mut y: usize = 0;
        while y < CHUNK_Y_SIZE
            invariant
                self.wf(),
                self.offset == offset,
                offset_in_range(offset),
                biome.wf(),
                land_level < CHUNK_Y_SIZE,
                seed == noise_generator.seed,
                b == *biome,
                max_biome_height == b.base_height + b.amplitude,
                y <= CHUNK_Y_SIZE,
                forall|k: int|
                    0 <= k < y * 324 ==> self.blocks@[k] == (Block {
                        material_type: spec_generated_at(seed, offset, b, land_level as int, k),
                    }),
                forall|k: int|
                    y * 324 <= k < TOTAL_CHUNK_SIZE ==> self.blocks@[k] == old(self).blocks@[k],
                self.dirty == old(self).dirty,
                self.needs_save == false,
                self.mesh == old(self).mesh,
                self.layer_meshes == old(self).layer_meshes,
                self.layer_dirty == old(self).layer_dirty,
                self.layer_spans == old(self).layer_spans,
                self.layout_changed == old(self).layout_changed,
                self.rebuilt_layers == old(self).rebuilt_layers,
                self.dirty_y_range == old(self).dirty_y_range,
            decreases CHUNK_Y_SIZE - y,
        {
            let mut x: usize = 0;
            while x < CHUNK_AREA_WITH_PADDING
                invariant
                    self.wf(),
                    self.offset == offset,
                    offset_in_range(offset),
                    biome.wf(),
                    land_level < CHUNK_Y_SIZE,
                    seed == noise_generator.seed,
                    b == *biome,
                    max_biome_height == b.base_height + b.amplitude,
                    y < CHUNK_Y_SIZE,
                    x <= CHUNK_AREA_WITH_PADDING,
                    forall|k: int|
                        0 <= k < y * 324 + x * 18 ==> self.blocks@[k] == (Block {
                            material_type: spec_generated_at(seed, offset, b, land_level as int, k),
                        }),
                    forall|k: int|
                        y * 324 + x * 18 <= k < TOTAL_CHUNK_SIZE ==> self.blocks@[k] == old(
                            self,
                        ).blocks@[k],
                    self.dirty == old(self).dirty,
                    self.needs_save == false,
                    self.mesh == old(self).mesh,
                    self.layer_meshes == old(self).layer_meshes,
                    self.layer_dirty == old(self).layer_dirty,
                    self.layer_spans == old(self).layer_spans,
                    self.layout_changed == old(self).layout_changed,
                    self.rebuilt_layers == old(self).rebuilt_layers,
                    self.dirty_y_range == old(self).dirty_y_range,
                decreases CHUNK_AREA_WITH_PADDING - x,
            {
                let mut z: usize = 0;
                while z < CHUNK_AREA_WITH_PADDING
                    invariant
                        self.wf(),
                        self.offset == offset,
                        offset_in_range(offset),
                        biome.wf(),
                        land_level < CHUNK_Y_SIZE,
                        seed == noise_generator.seed,
                        b == *biome,
                        max_biome_height == b.base_height + b.amplitude,
                        y < CHUNK_Y_SIZE,
                        x < CHUNK_AREA_WITH_PADDING,
                        z <= CHUNK_AREA_WITH_PADDING,
                        forall|k: int|
                            0 <= k < y * 324 + x * 18 + z ==> self.blocks@[k] == (Block {
                                material_type: spec_generated_at(
                                    seed,
                                    offset,
                                    b,
                                    land_level as int,
                                    k,
                                ),
                            }),
                        forall|k: int|
                            y * 324 + x * 18 + z <= k < TOTAL_CHUNK_SIZE ==> self.blocks@[k] == old(
                                self,
                            ).blocks@[k],
                        self.dirty == old(self).dirty,
                        self.needs_save == false,
                        self.mesh == old(self).mesh,
                        self.layer_meshes == old(self).layer_meshes,
                        self.layer_dirty == old(self).layer_dirty,
                        self.layer_spans == old(self).layer_spans,
                        self.layout_changed == old(self).layout_changed,
                        self.rebuilt_layers == old(self).rebuilt_layers,
                        self.dirty_y_range == old(self).dirty_y_range,
                    decreases CHUNK_AREA_WITH_PADDING - z,
                {
                    let block_type = if y > max_biome_height {
                        MaterialType::AIR
                    } else if (y as u64) + 1 < biome.base_height as u64 {
                        MaterialType::DIRT
                    } else {
                        let local_x = x as i32 - 1;
                        let local_z = z as i32 - 1;
                        let world_pos = local_pos_to_world(
                            offset,
                            Vec3i { x: local_x, y: y as i32, z: local_z },
                        );
                        let height_variation = noise_generator.get_height(
                            world_pos.x,
                            world_pos.z,
                            biome.frequency,
                            biome.amplitude,
                        );
                        let surface_signed = biome.base_height as i32 + height_variation;
                        let new_height: usize = if surface_signed >= 0 {
                            surface_signed as usize
                        } else {
                            0
                        };
                        if y > new_height {
                            if y <= land_level {
                                MaterialType::WATER
                            } else {
                                MaterialType::AIR
                            }
                        } else if y == new_height {
                            MaterialType::GRASS
                        } else if y == 0 {
                            MaterialType::ROCK
                        } else {
                            MaterialType::DIRT
                        }
                    };
                    proof {
                        lemma_chunk_index_coords(y as int, x as int, z as int);
                        assert(block_type == spec_generated_material(
                            seed,
                            offset,
                            b,
                            land_level as int,
                            y as int,
                            x as int,
                            z as int,
                        ));
                    }
                    let index = self.calculate_index(y, x, z);
                    self.blocks[index] = Block { material_type: block_type };
                    z = z + 1;
                }
                x = x + 1;
            }
            y = y + 1;
        }
        proof {
            assert forall|y2: int, x2: int, z2: int|
                spec_grid_pos_in_bounds(y2, x2, z2) implies self.blocks@[spec_chunk_index(
                y2,
                x2,
                z2,
            )] == (Block {
                material_type: spec_generated_material(
                    seed,
                    offset,
                    b,
                    land_level as int,
                    y2,
                    x2,
                    z2,
                ),
            }) by {
                lemma_chunk_index_coords(y2, x2, z2);
            }
        }
        self.dirty = true;
        self.dirty_y_range = Some((0, CHUNK_Y_SIZE - 1));
        let mut layer_dirty: Vec<bool> = Vec::new();
        let mut rebuilt_layers: Vec<usize> = Vec::new();
        let mut ly: usize = 0;
        while ly < CHUNK_Y_SIZE
            invariant
                ly == layer_dirty@.len(),
                ly == rebuilt_layers@.len(),
                ly <= CHUNK_Y_SIZE,
                forall|j: int| 0 <= j < ly ==> layer_dirty@[j] == true,
                forall|j: int| 0 <= j < ly ==> #[trigger] rebuilt_layers@[j] == j,
            decreases CHUNK_Y_SIZE - ly,
        {
            layer_dirty.push(true);
            rebuilt_layers.push(ly);
            ly = ly + 1;
        }
        self.layer_dirty = layer_dirty;
        self.rebuilt_layers = rebuilt_layers;
    }
}

/// Generation is deterministic: the same seed, offset, biome and land
/// level write byte-identical material arrays into any two chunks,
/// whatever they held before.
pub proof fn lemma_generation_deterministic(c1: Chunk, c2: Chunk, seed: u32, offset: Vec3i, biome: BiomeParameters, land_level: int)
    requires
        c1.wf(),
        c2.wf(),
        forall|y: int, x: int, z: int|
            spec_grid_pos_in_bounds(y, x, z) ==> c1.blocks@[spec_chunk_index(y, x, z)] == (Block {
                material_type: spec_generated_material(seed, offset, biome, land_level, y, x, z),
            }),
        forall|y: int, x: int, z: int|
            spec_grid_pos_in_bounds(y, x, z) ==> c2.blocks@[spec_chunk_index(y, x, z)] == (Block {
                material_type: spec_generated_material(seed, offset, biome, land_level, y, x, z),
            }),
    ensures
        c1.blocks@ == c2.blocks@,
{
    assert forall|k: int| 0 <= k < TOTAL_CHUNK_SIZE implies c1.blocks@[k] == c2.blocks@[k] by {
        let y = k / 324;
        let x = (k % 324) / 18;
        let z = k % 324 % 18;
        vstd::arithmetic::div_mod::lemma_fundamental_div_mod(k, 324);
        vstd::arithmetic::div_mod::lemma_mod_bound(k, 324);
        vstd::arithmetic::div_mod::lemma_fundamental_div_mod(k % 324, 18);
        vstd::arithmetic::div_mod::lemma_mod_bound(k % 324, 18);
        assert(spec_grid_pos_in_bounds(y, x, z)) by {
            assert(0 <= k % 324 < 324);
            assert(0 <= z < 18);
            assert(0 <= x < 18) by (nonlinear_arith)
                requires
                    k % 324 == 18 * x + z,
                    0 <= k % 324 < 324,
                    0 <= z < 18,
            ;
            assert(0 <= y < CHUNK_Y_SIZE) by (nonlinear_arith)
                requires
                    k == 324 * y + k % 324,
                    0 <= k % 324 < 324,
                    0 <= k < TOTAL_CHUNK_SIZE,
            ;
        }
        assert(spec_chunk_index(y, x, z) == k) by (nonlinear_arith)
            requires
                k == 324 * y + k % 324,
                k % 324 == 18 * x + z,
        ;
    }
    assert(c1.blocks@ =~= c2.blocks@);
}

} // verus!

verus! {

/// The error a chunk load reports: the byte array does not have exactly
/// one byte per voxel of the padded grid. A corrupt or truncated file is
/// never partially trusted.
#[derive(Copy, Clone, Debug, PartialEq, Eq, Structural)]
pub enum ChunkLoadError {
    WrongSize,
}

/// The fixed material-to-byte mapping of the on-disk chunk format.
pub open spec fn spec_material_to_u8(mat: MaterialType) -> u8 {
    match mat {
        MaterialType::DIRT => 0u8,
        MaterialType::GRASS => 1u8,
        MaterialType::ROCK => 2u8,
        MaterialType::WATER => 3u8,
        MaterialType::AIR => 4u8,
        MaterialType::DEBUG => 5u8,
    }
}

/// The inverse byte-to-material mapping; unknown bytes read as air.
pub open spec fn spec_material_from_u8(v: u8) -> MaterialType {
    if v == 0 {
        MaterialType::DIRT
    } else if v == 1 {
        MaterialType::GRASS
    } else if v == 2 {
        MaterialType::ROCK
    } else if v == 3 {
        MaterialType::WATER
    } else if v == 4 {
        MaterialType::AIR
    } else if v == 5 {
        MaterialType::DEBUG
    } else {
        MaterialType::AIR
    }
}

pub fn material_to_u8(mat: MaterialType) -> (r: u8)
    ensures
        r == spec_material_to_u8(mat),
{
    match mat {
        MaterialType::DIRT => 0,
        MaterialType::GRASS => 1,
        MaterialType::ROCK => 2,
        MaterialType::WATER => 3,
        MaterialType::AIR => 4,
        MaterialType::DEBUG => 5,
    }
}

pub fn material_from_u8(v: u8) -> (r: MaterialType)
    ensures
        r == spec_material_from_u8(v),
{
    match v {
        0 => MaterialType::DIRT,
        1 => MaterialType::GRASS,
        2 => MaterialType::ROCK,
        3 => MaterialType::WATER,
        4 => MaterialType::AIR,
        5 => MaterialType::DEBUG,
        _ => MaterialType::AIR,
    }
}

/// Decoding a saved byte gives back the material it encoded.
pub proof fn lemma_material_byte_round_trip(mat: MaterialType)
    ensures
        spec_material_from_u8(spec_material_to_u8(mat)) == mat,
{
}

impl Chunk {
    /// Serialize the material array into the on-disk format: one byte per
    /// voxel of the padded grid, in flat index order.
    pub fn save_bytes(&self) -> (r: Vec<u8>)
        requires
            self.wf(),
        ensures
            r@.len() == self.blocks@.len(),
            forall|k: int|
                0 <= k < r@.len() ==> r@[k] == spec_material_to_u8(
                    self.blocks@[k].material_type,
                ),
    {
        let mut buf: Vec<u8> = Vec::new();
        let mut k: usize = 0;
        let n = self.blocks.len();
        while k < n
            invariant
                n == self.blocks@.len(),
                k == buf@.len(),
                k <= n,
                forall|j: int|
                    0 <= j < k ==> buf@[j] == spec_material_to_u8(self.blocks@[j].material_type),
            decreases n - k,
        {
            buf.push(material_to_u8(self.blocks[k].material_type));
            k = k + 1;
        }
        buf
    }

    /// Replace the material array from the on-disk format and re-home the
    /// chunk at `offset`, clearing the dirty and needs-save state. A byte
    /// array of the wrong length is rejected and the chunk is left
    /// untouched.
    pub fn load_bytes(&mut self, data: &Vec<u8>, offset: Vec3i) -> (r: Result<
        (),
        ChunkLoadError,
    >)
        requires
            old(self).wf(),
            offset_in_range(offset),
        ensures
            final(self).wf(),
            r is Err <==> data@.len() != old(self).blocks@.len(),
            r is Err ==> *final(self) == *old(self),
            r is Ok ==> {
                &&& final(self).blocks@.len() == old(self).blocks@.len()
                &&& forall|k: int|
                    0 <= k < data@.len() ==> final(self).blocks@[k] == (Block {
                        material_type: spec_material_from_u8(data@[k]),
                    })
                &&& final(self).offset == offset
                &&& final(self).dirty == false
                &&& final(self).needs_save == false
                &&& final(self).dirty_y_range is None
                &&& final(self).mesh == old(self).mesh
                &&& final(self).layer_meshes == old(self).layer_meshes
                &&& final(self).layer_dirty == old(self).layer_dirty
                &&& final(self).layer_spans == old(self).layer_spans
                &&& final(self).layout_changed == old(self).layout_changed
                &&& final(self).rebuilt_layers == old(self).rebuilt_layers
            },
    {
        if data.len() != self.blocks.len() {
            return Err(ChunkLoadError::WrongSize);
        }
        let n = data.len();
        let mut k: usize = 0;
        while k < n
            invariant
                self.wf(),
                n == data@.len(),
                n == self.blocks@.len(),
                k <= n,
                forall|j: int|
                    0 <= j < k ==> self.blocks@[j] == (Block {
                        material_type: spec_material_from_u8(data@[j]),
                    }),
                self.offset == old(self).offset,
                self.mesh == old(self).mesh,
                self.dirty == old(self).dirty,
                self.needs_save == old(self).needs_save,
                self.layer_meshes == old(self).layer_meshes,
                self.layer_dirty == old(self).layer_dirty,
                self.layer_spans == old(self).layer_spans,
                self.layout_changed == old(self).layout_changed,
                self.rebuilt_layers == old(self).rebuilt_layers,
                self.dirty_y_range == old(self).dirty_y_range,
            decreases n - k,
        {
            self.blocks[k] = Block { material_type: material_from_u8(data[k]) };
            k = k + 1;
        }
        self.offset = offset;
        self.dirty = false;
        self.needs_save = false;
        self.dirty_y_range = None;
        Ok(())
    }
}

/// Round-trip persistence: loading the bytes a chunk saved restores its
/// material array exactly, whatever the receiving chunk held before.
pub proof fn lemma_save_load_round_trip(saved: Seq<u8>, original: Seq<Block>, restored: Seq<Block>)
    requires
        saved.len() == original.len(),
        restored.len() == original.len(),
        forall|k: int|
            0 <= k < saved.len() ==> saved[k] == spec_material_to_u8(original[k].material_type),
        forall|k: int|
            0 <= k < restored.len() ==> restored[k] == (Block {
                material_type: spec_material_from_u8(saved[k]),
            }),
    ensures
        restored == original,
{
    assert forall|k: int| 0 <= k < restored.len() implies restored[k] == original[k] by {
        lemma_material_byte_round_trip(original[k].material_type);
    }
    assert(restored =~= original);
}

impl Chunk {
    /// Widen the pending remesh band by one layer on each side of an
    /// edited layer, so that face changes across layer boundaries are
    /// caught, and mark those layers dirty.
    pub(crate) fn mark_dirty_y(&mut self, y: usize)
        requires
            old(self).wf(),
            y < CHUNK_Y_SIZE,
        ensures
            final(self).wf(),
            final(self).dirty_y_range == Some(spec_merged_dirty_range(old(self).dirty_y_range, y as int)),
            final(self).layer_dirty@.len() == CHUNK_Y_SIZE,
            forall|j: int|
                0 <= j < CHUNK_Y_SIZE ==> final(self).layer_dirty@[j] == (old(self).layer_dirty@[j]
                    || spec_dirty_band_lo(y as int) <= j <= spec_dirty_band_hi(y as int)),
            final(self).blocks == old(self).blocks,
            final(self).offset == old(self).offset,
            final(self).mesh == old(self).mesh,
            final(self).dirty == old(self).dirty,
            final(self).needs_save == old(self).needs_save,
            final(self).layer_meshes == old(self).layer_meshes,
            final(self).layer_spans == old(self).layer_spans,
            final(self).layout_changed == old(self).layout_changed,
            final(self).rebuilt_layers == old(self).rebuilt_layers,
    {
        let y0 = if y > 0 {
            y - 1
        } else {
            0
        };
        let y1 = if y + 1 < CHUNK_Y_SIZE {
            y + 1
        } else {
            CHUNK_Y_SIZE - 1
        };
        self.dirty_y_range = match self.dirty_y_range {
            Some((lo, hi)) => Some(
                (
                    if lo < y0 {
                        lo
                    } else {
                        y0
                    },
                    if hi > y1 {
                        hi
                    } else {
                        y1
                    },
                ),
            ),
            None => Some((y0, y1)),
        };
        let mut ly: usize = y0;
        while ly <= y1
            invariant
                self.wf(),
                y0 <= ly <= y1 + 1,
                y1 < CHUNK_Y_SIZE,
                y0 == spec_dirty_band_lo(y as int),
                y1 == spec_dirty_band_hi(y as int),
                self.layer_dirty@.len() == CHUNK_Y_SIZE,
                forall|j: int|
                    0 <= j < CHUNK_Y_SIZE ==> self.layer_dirty@[j] == (old(self).layer_dirty@[j]
                        || y0 <= j < ly),
                self.blocks == old(self).blocks,
                self.offset == old(self).offset,
                self.mesh == old(self).mesh,
                self.dirty == old(self).dirty,
                self.needs_save == old(self).needs_save,
                self.layer_meshes == old(self).layer_meshes,
                self.layer_spans == old(self).layer_spans,
                self.layout_changed == old(self).layout_changed,
                self.rebuilt_layers == old(self).rebuilt_layers,
                self.dirty_y_range == Some(spec_merged_dirty_range(old(self).dirty_y_range, y as int)),
            decreases y1 + 1 - ly,
        {
            self.layer_dirty[ly] = true;
            ly = ly + 1;
        }
    }

    /// The inclusive layer range touched since the last remesh, if any.
    pub fn dirty_y_range(&self) -> (r: Option<(usize, usize)>)
        ensures
            r == self.dirty_y_range,
    {
        self.dirty_y_range
    }

    /// Whether the last remesh moved any layer's slice of the mesh.
    pub fn layout_changed(&self) -> (r: bool)
        ensures
            r == self.layout_changed,
    {
        self.layout_changed
    }

    /// Each layer's slice of the concatenated mesh.
    pub fn layer_spans(&self) -> (r: &Vec<LayerSpan>)
        ensures
            r == &self.layer_spans,
    {
        &self.layer_spans
    }

    /// Hand out the list of layers the last remesh rebuilt, leaving the
    /// chunk's own list empty.
    pub fn take_rebuilt_layers(&mut self) -> (r: Vec<usize>)
        ensures
            r == old(self).rebuilt_layers,
            final(self).rebuilt_layers@.len() == 0,
            final(self).blocks == old(self).blocks,
            final(self).offset == old(self).offset,
            final(self).mesh == old(self).mesh,
            final(self).dirty == old(self).dirty,
            final(self).needs_save == old(self).needs_save,
            final(self).layer_meshes == old(self).layer_meshes,
            final(self).layer_dirty == old(self).layer_dirty,
            final(self).layer_spans == old(self).layer_spans,
            final(self).layout_changed == old(self).layout_changed,
            final(self).dirty_y_range == old(self).dirty_y_range,
    {
        let mut r: Vec<usize> = Vec::new();
        core::mem::swap(&mut r, &mut self.rebuilt_layers);
        r
    }

    /// The cached mesh of layer `y`, or `None` above the chunk height.
    pub fn layer_mesh(&self, y: usize) -> (r: Option<&LayerMesh>)
        requires
            self.wf(),
        ensures
            y < CHUNK_Y_SIZE ==> match r {
                Some(lm) => lm == &self.layer_meshes@[y as int],
                None => false,
            },
            y >= CHUNK_Y_SIZE ==> r is None,
    {
        if y < CHUNK_Y_SIZE {
            Some(&self.layer_meshes[y])
        } else {
            None
        }
    }
}

/// The lower edge of the one-layer dirty band around an edited layer.
pub open spec fn spec_dirty_band_lo(y: int) -> int {
    if y > 0 {
        y - 1
    } else {
        0
    }
}

/// The upper edge of the one-layer dirty band around an edited layer.
pub open spec fn spec_dirty_band_hi(y: int) -> int {
    if y + 1 < CHUNK_Y_SIZE {
        y + 1
    } else {
        CHUNK_Y_SIZE - 1
    }
}

/// The pending remesh range after widening it with the band around an
/// edited layer.
pub open spec fn spec_merged_dirty_range(r: Option<(usize, usize)>, y: int) -> (usize, usize) {
    let y0 = spec_dirty_band_lo(y);
    let y1 = spec_dirty_band_hi(y);
    match r {
        Some((lo, hi)) => (
            (if lo < y0 {
                lo as int
            } else {
                y0
            }) as usize,
            (if hi > y1 {
                hi as int
            } else {
                y1
            }) as usize,
        ),
        None => (y0 as usize, y1 as usize),
    }
}

} // verus!

verus! {

/// At most six faces for each of the 16 x 16 interior cells of a layer.
pub const MAX_LAYER_QUADS: usize = 1536;

/// Whether a local position lies inside the padded grid: the interior is
/// `0 .. CHUNK_AREA` horizontally, and the padding ring adds -1 and
/// `CHUNK_AREA` on each horizontal axis.
pub open spec fn spec_pos_in_chunk_bounds(pos: Vec3i) -> bool {
    &&& -1 <= pos.x <= CHUNK_AREA
    &&& 0 <= pos.y < CHUNK_Y_SIZE
    &&& -1 <= pos.z <= CHUNK_AREA
}

/// Runtime check of `spec_pos_in_chunk_bounds`.
pub fn pos_in_chunk_bounds(pos: Vec3i) -> (r: bool)
    ensures
        r == spec_pos_in_chunk_bounds(pos),
{
    pos.x >= -1 && pos.y >= 0 && pos.z >= -1 && pos.x <= CHUNK_AREA as i32 && pos.y < (
    CHUNK_Y_SIZE as i32) && pos.z <= CHUNK_AREA as i32
}

/// Whether the face looking at local position `p` is visible: a face
/// whose neighbour lies inside the padded grid is visible exactly when
/// that neighbour is air; one whose neighbour lies outside even the
/// padding is conservatively visible so no geometry disappears at the
/// rim.
pub open spec fn spec_visible_at(blocks: Seq<Block>, p: Vec3i) -> bool {
    if spec_pos_in_chunk_bounds(p) {
        blocks[spec_chunk_index(p.y as int, p.x + 1, p.z + 1)].material_type == MaterialType::AIR
    } else {
        true
    }
}

/// The local position of the neighbour that face `d` of the voxel at
/// padded-grid position `(y, x, z)` looks at.
pub open spec fn spec_neighbor_local(y: int, x: int, z: int, d: int) -> Vec3i {
    let dv = Direction::spec_from_index(d).spec_to_vec();
    Vec3i { x: (x - 1 + dv.x) as i32, y: (y + dv.y) as i32, z: (z - 1 + dv.z) as i32 }
}

/// Whether face `d` of the voxel at `(y, x, z)` emits a quad: the voxel
/// itself is not air and the face is visible.
pub open spec fn spec_face_emits(blocks: Seq<Block>, y: int, x: int, z: int, d: int) -> bool {
    &&& blocks[spec_chunk_index(y, x, z)].material_type != MaterialType::AIR
    &&& spec_visible_at(blocks, spec_neighbor_local(y, x, z, d))
}

/// The world voxel position of the voxel at padded-grid `(y, x, z)` of
/// the chunk at `offset` (the vertical axis is not scaled by the offset:
/// mesh vertices live in the chunk's own vertical frame).
pub open spec fn spec_cell_world_pos(offset: Vec3i, y: int, x: int, z: int) -> [i32; 3] {
    [((x - 1) + offset.x * CHUNK_AREA) as i32, y as i32, ((z - 1) + offset.z * CHUNK_AREA) as i32]
}

/// The vertices face `d` of the voxel at `(y, x, z)` contributes: four
/// for an emitting face, none otherwise.
pub open spec fn spec_face_verts(
    blocks: Seq<Block>,
    offset: Vec3i,
    y: int,
    x: int,
    z: int,
    d: int,
) -> Seq<BlockVertex> {
    if spec_face_emits(blocks, y, x, z, d) {
        crate::block::spec_face_vertices(
            blocks[spec_chunk_index(y, x, z)].material_type,
            Direction::spec_from_index(d),
            spec_cell_world_pos(offset, y, x, z),
        )
    } else {
        Seq::empty()
    }
}

/// Vertices of the first `d` faces of the voxel at `(y, x, z)`.
pub open spec fn spec_cell_verts_upto(
    blocks: Seq<Block>,
    offset: Vec3i,
    y: int,
    x: int,
    z: int,
    d: int,
) -> Seq<BlockVertex>
    decreases d,
{
    if d <= 0 {
        Seq::empty()
    } else {
        spec_cell_verts_upto(blocks, offset, y, x, z, d - 1) + spec_face_verts(
            blocks,
            offset,
            y,
            x,
            z,
            d - 1,
        )
    }
}

/// All vertices the voxel at `(y, x, z)` contributes to its layer.
pub open spec fn spec_cell_verts(blocks: Seq<Block>, offset: Vec3i, y: int, x: int, z: int) -> Seq<
    BlockVertex,
> {
    spec_cell_verts_upto(blocks, offset, y, x, z, 6)
}

/// The interior grid column of the `c`-th cell in meshing order (the
/// outer loop walks `x`, the inner walks `z`).
pub open spec fn spec_cell_x(c: int) -> int {
    1 + c / (CHUNK_AREA as int)
}

/// The interior grid row of the `c`-th cell in meshing order.
pub open spec fn spec_cell_z(c: int) -> int {
    1 + c % (CHUNK_AREA as int)
}

/// Vertices of the first `c` interior cells of layer `y`.
pub open spec fn spec_layer_verts_upto(blocks: Seq<Block>, offset: Vec3i, y: int, c: int) -> Seq<
    BlockVertex,
>
    decreases c,
{
    if c <= 0 {
        Seq::empty()
    } else {
        spec_layer_verts_upto(blocks, offset, y, c - 1) + spec_cell_verts(
            blocks,
            offset,
            y,
            spec_cell_x(c - 1),
            spec_cell_z(c - 1),
        )
    }
}

/// All vertices of layer `y`: the concatenation over the 256 interior
/// cells, in meshing order, of each cell's visible-face quads.
pub open spec fn spec_layer_verts(blocks: Seq<Block>, offset: Vec3i, y: int) -> Seq<BlockVertex> {
    spec_layer_verts_upto(blocks, offset, y, (CHUNK_AREA * CHUNK_AREA) as int)
}

/// Index `j` of the standard two-triangle pattern of one quad.
pub open spec fn spec_index_delta(j: int) -> int {
    if j == 0 {
        0
    } else if j == 1 {
        1
    } else if j == 2 {
        2
    } else if j == 3 {
        2
    } else if j == 4 {
        3
    } else {
        0
    }
}

/// The index stream of `nq` consecutive quads: quad `q` spans vertices
/// `4q .. 4q + 4` and contributes the two-triangle pattern over them.
pub open spec fn spec_index_seq(nq: int) -> Seq<u32> {
    Seq::new((6 * nq) as nat, |i: int| (4 * (i / 6) + spec_index_delta(i % 6)) as u32)
}

/// A layer mesh in the shape `update_mesh` produces: at most a full
/// layer's worth of quads, four vertices per quad, and the standard index
/// pattern over them.
pub open spec fn spec_layer_mesh_bounded(lm: LayerMesh) -> bool {
    &&& lm.verts@.len() <= 4 * MAX_LAYER_QUADS
    &&& lm.indices@.len() <= 6 * MAX_LAYER_QUADS
    &&& forall|i: int| 0 <= i < lm.indices@.len() ==> #[trigger] lm.indices@[i] < lm.verts@.len()
}

/// Appending one quad to the index stream appends its six-index pattern.
pub proof fn lemma_index_seq_step(nq: int)
    requires
        nq >= 0,
    ensures
        spec_index_seq(nq + 1) == spec_index_seq(nq) + seq![
            (4 * nq) as u32,
            (4 * nq + 1) as u32,
            (4 * nq + 2) as u32,
            (4 * nq + 2) as u32,
            (4 * nq + 3) as u32,
            (4 * nq) as u32,
        ],
{
    let lhs = spec_index_seq(nq + 1);
    let rhs = spec_index_seq(nq) + seq![
        (4 * nq) as u32,
        (4 * nq + 1) as u32,
        (4 * nq + 2) as u32,
        (4 * nq + 2) as u32,
        (4 * nq + 3) as u32,
        (4 * nq) as u32,
    ];
    assert forall|i: int| 0 <= i < lhs.len() implies lhs[i] == rhs[i] by {
        if i < 6 * nq {
            assert(rhs[i] == spec_index_seq(nq)[i]);
        } else {
            assert(i / 6 == nq) by (nonlinear_arith)
                requires
                    6 * nq <= i < 6 * nq + 6,
            ;
            assert(i % 6 == i - 6 * nq) by (nonlinear_arith)
                requires
                    6 * nq <= i < 6 * nq + 6,
            ;
        }
    }
    assert(lhs =~= rhs);
}

/// Every value in the index stream of `nq` quads addresses one of the
/// `4 * nq` vertices.
pub proof fn lemma_index_seq_values(nq: int)
    requires
        0 <= nq,
    ensures
        forall|i: int|
            0 <= i < 6 * nq ==> #[trigger] spec_index_seq(nq)[i] < 4 * nq,
{
    assert forall|i: int| 0 <= i < 6 * nq implies #[trigger] spec_index_seq(nq)[i] < 4 * nq by {
        assert(0 <= i / 6 < nq) by (nonlinear_arith)
            requires
                0 <= i < 6 * nq,
        ;
        assert(0 <= spec_index_delta(i % 6) <= 3);
    }
}

} // verus!

verus! {

impl Chunk {
    /// Whether the face looking at local position `neighbor_pos` is
    /// visible: inside the padded grid a face is visible exactly when its
    /// neighbour is air; outside it is conservatively visible.
    pub fn is_quad_visible(&self, neighbor_pos: Vec3i) -> (r: bool)
        requires
            self.wf(),
        ensures
            r == spec_visible_at(self.blocks@, neighbor_pos),
    {
        if pos_in_chunk_bounds(neighbor_pos) {
            let x_index = (neighbor_pos.x + 1) as usize;
            let y_index = neighbor_pos.y as usize;
            let z_index = (neighbor_pos.z + 1) as usize;
            let neighbor_block = self.get_block(y_index, x_index, z_index).unwrap();
            neighbor_block == MaterialType::AIR
        } else {
            true
        }
    }

    /// Append the visible-face quads of the interior voxel at
    /// `(y, x, z)` to a layer mesh under construction. `quad_count`
    /// counts the quads already in the mesh.
    fn mesh_cell(&self, y: usize, x: usize, z: usize, lm: &mut LayerMesh, quad_count: &mut usize)
        requires
            self.wf(),
            y < CHUNK_Y_SIZE,
            1 <= x <= CHUNK_AREA,
            1 <= z <= CHUNK_AREA,
            old(lm).verts@.len() == 4 * *old(quad_count),
            old(lm).indices@ == spec_index_seq(*old(quad_count) as int),
            *old(quad_count) + 6 <= MAX_LAYER_QUADS,
        ensures
            final(lm).verts@ == old(lm).verts@ + spec_cell_verts(
                self.blocks@,
                self.offset,
                y as int,
                x as int,
                z as int,
            ),
            final(lm).verts@.len() == 4 * *final(quad_count),
            final(lm).indices@ == spec_index_seq(*final(quad_count) as int),
            *old(quad_count) <= *final(quad_count) <= *old(quad_count) + 6,
    {
        let mat = self.get_block(y, x, z).unwrap();
        let ghost blocks = self.blocks@;
        let ghost offset = self.offset;
        if mat == MaterialType::AIR {
            proof {
                assert forall|d: int| 0 <= d < 6 implies spec_face_verts(
                    blocks,
                    offset,
                    y as int,
                    x as int,
                    z as int,
                    d,
                ) == Seq::<BlockVertex>::empty() by {
                    assert(!spec_face_emits(blocks, y as int, x as int, z as int, d));
                }
                reveal_with_fuel(spec_cell_verts_upto, 7);
                assert(spec_cell_verts(blocks, offset, y as int, x as int, z as int) =~= Seq::<
                    BlockVertex,
                >::empty());
            }
            return ;
        }
        proof {
            assert(-OFFSET_LIMIT <= self.offset.x <= OFFSET_LIMIT);
            assert(-OFFSET_LIMIT <= self.offset.z <= OFFSET_LIMIT);
        }
        let world_pos: [i32; 3] = [
            x as i32 - 1 + self.offset.x * 16,
            y as i32,
            z as i32 - 1 + self.offset.z * 16,
        ];
        proof {
            assert(world_pos =~= spec_cell_world_pos(offset, y as int, x as int, z as int));
            assert(crate::block::vertex_pos_in_range(world_pos));
        }
        let mut d: usize = 0;
        while d < 6
            invariant
                self.wf(),
                blocks == self.blocks@,
                offset == self.offset,
                y < CHUNK_Y_SIZE,
                1 <= x <= CHUNK_AREA,
                1 <= z <= CHUNK_AREA,
                d <= 6,
                mat == self.spec_material_at(spec_chunk_index(y as int, x as int, z as int)),
                mat != MaterialType::AIR,
                world_pos == spec_cell_world_pos(offset, y as int, x as int, z as int),
                crate::block::vertex_pos_in_range(world_pos),
                lm.verts@ == old(lm).verts@ + spec_cell_verts_upto(
                    blocks,
                    offset,
                    y as int,
                    x as int,
                    z as int,
                    d as int,
                ),
                lm.verts@.len() == 4 * *quad_count,
                lm.indices@ == spec_index_seq(*quad_count as int),
                *old(quad_count) <= *quad_count <= *old(quad_count) + d,
                *old(quad_count) + 6 <= MAX_LAYER_QUADS,
            decreases 6 - d,
        {
            let side = Direction::from_index(d);
            let dv = side.to_vec();
            let neighbor_pos = Vec3i {
                x: x as i32 - 1 + dv.x,
                y: y as i32 + dv.y,
                z: z as i32 - 1 + dv.z,
            };
            proof {
                assert(neighbor_pos == spec_neighbor_local(y as int, x as int, z as int, d as int));
            }
            let visible = self.is_quad_visible(neighbor_pos);
            if visible {
                let quad = crate::block::Quad::new(mat, side, world_pos);
                let base = (*quad_count * 4) as u32;
                proof {
                    lemma_index_seq_step(*quad_count as int);
                }
                lm.verts.push(quad.vertices[0]);
                lm.verts.push(quad.vertices[1]);
                lm.verts.push(quad.vertices[2]);
                lm.verts.push(quad.vertices[3]);
                lm.indices.push(base);
                lm.indices.push(base + 1);
                lm.indices.push(base + 2);
                lm.indices.push(base + 2);
                lm.indices.push(base + 3);
                lm.indices.push(base);
                *quad_count = *quad_count + 1;
                proof {
                    assert(spec_face_emits(blocks, y as int, x as int, z as int, d as int));
                    assert(quad.vertices@ =~= spec_face_verts(
                        blocks,
                        offset,
                        y as int,
                        x as int,
                        z as int,
                        d as int,
                    ));
                    assert(lm.verts@ =~= old(lm).verts@ + spec_cell_verts_upto(
                        blocks,
                        offset,
                        y as int,
                        x as int,
                        z as int,
                        d as int + 1,
                    ));
                    assert(lm.indices@ =~= spec_index_seq(*quad_count as int));
                }
            } else {
                proof {
                    assert(!spec_face_emits(blocks, y as int, x as int, z as int, d as int));
                    assert(spec_cell_verts_upto(
                        blocks,
                        offset,
                        y as int,
                        x as int,
                        z as int,
                        d as int + 1,
                    ) =~= spec_cell_verts_upto(
                        blocks,
                        offset,
                        y as int,
                        x as int,
                        z as int,
                        d as int,
                    ));
                }
            }
            d = d + 1;
        }
    }

    /// Build the mesh of layer `y` from the current blocks: the visible
    /// faces of every non-air interior voxel, in cell order.
    fn build_layer(&self, y: usize) -> (lm: LayerMesh)
        requires
            self.wf(),
            y < CHUNK_Y_SIZE,
        ensures
            lm.verts@ == spec_layer_verts(self.blocks@, self.offset, y as int),
            lm.verts@.len() % 4 == 0,
            lm.indices@ == spec_index_seq(lm.verts@.len() as int / 4),
            spec_layer_mesh_bounded(lm),
    {
        let mut lm = LayerMesh { verts: Vec::new(), indices: Vec::new() };
        let mut quad_count: usize = 0;
        let ghost blocks = self.blocks@;
        let ghost offset = self.offset;
        let mut x: usize = 1;
        while x <= CHUNK_AREA
            invariant
                self.wf(),
                blocks == self.blocks@,
                offset == self.offset,
                y < CHUNK_Y_SIZE,
                1 <= x <= CHUNK_AREA + 1,
                lm.verts@ == spec_layer_verts_upto(blocks, offset, y as int, (x - 1) * 16),
                lm.verts@.len() == 4 * quad_count,
                lm.indices@ == spec_index_seq(quad_count as int),
                quad_count <= (x - 1) * 16 * 6,
            decreases CHUNK_AREA + 1 - x,
        {
            let mut z: usize = 1;
            while z <= CHUNK_AREA
                invariant
                    self.wf(),
                    blocks == self.blocks@,
                    offset == self.offset,
                    y < CHUNK_Y_SIZE,
                    1 <= x <= CHUNK_AREA,
                    1 <= z <= CHUNK_AREA + 1,
                    lm.verts@ == spec_layer_verts_upto(
                        blocks,
                        offset,
                        y as int,
                        (x - 1) * 16 + (z - 1),
                    ),
                    lm.verts@.len() == 4 * quad_count,
                    lm.indices@ == spec_index_seq(quad_count as int),
                    quad_count <= ((x - 1) * 16 + (z - 1)) * 6,
                decreases CHUNK_AREA + 1 - z,
            {
                let ghost c = ((x - 1) * 16 + (z - 1)) as int;
                proof {
                    assert(spec_cell_x(c) == x && spec_cell_z(c) == z) by {
                        vstd::arithmetic::div_mod::lemma_fundamental_div_mod_converse(
                            c,
                            16,
                            x as int - 1,
                            z as int - 1,
                        );
                    }
                    assert(quad_count + 6 <= MAX_LAYER_QUADS) by (nonlinear_arith)
                        requires
                            quad_count <= ((x - 1) * 16 + (z - 1)) * 6,
                            1 <= x <= CHUNK_AREA,
                            1 <= z <= CHUNK_AREA,
                    ;
                }
                self.mesh_cell(y, x, z, &mut lm, &mut quad_count);
                proof {
                    assert(lm.verts@ =~= spec_layer_verts_upto(blocks, offset, y as int, c + 1));
                    assert(quad_count <= ((x - 1) * 16 + z) * 6) by (nonlinear_arith)
                        requires
                            quad_count <= ((x - 1) * 16 + (z - 1)) * 6 + 6,
                    ;
                }
                z = z + 1;
            }
            x = x + 1;
        }
        proof {
            lemma_index_seq_values(quad_count as int);
            assert(quad_count <= MAX_LAYER_QUADS);
            assert(lm.verts@.len() as int / 4 == quad_count as int);
        }
        lm
    }
}

} // verus!

verus! {

/// The vertex streams of the first `n` layer meshes, concatenated.
pub open spec fn spec_combined_verts_upto(lms: Seq<LayerMesh>, n: int) -> Seq<BlockVertex>
    decreases n,
{
    if n <= 0 {
        Seq::empty()
    } else {
        spec_combined_verts_upto(lms, n - 1) + lms[n - 1].verts@
    }
}

/// The vertex stream of the whole chunk mesh: all layers in ascending
/// order.
pub open spec fn spec_combined_verts(lms: Seq<LayerMesh>) -> Seq<BlockVertex> {
    spec_combined_verts_upto(lms, CHUNK_Y_SIZE as int)
}

/// One layer's index stream, re-based onto the concatenated vertex
/// stream: every index moves up by the layer's vertex start.
pub open spec fn spec_shifted_indices(lm: LayerMesh, v_start: int) -> Seq<u32> {
    Seq::new(lm.indices@.len(), |i: int| (lm.indices@[i] + v_start) as u32)
}

/// The index streams of the first `n` layer meshes, each re-based onto
/// the concatenated vertex stream, concatenated.
pub open spec fn spec_combined_indices_upto(lms: Seq<LayerMesh>, n: int) -> Seq<u32>
    decreases n,
{
    if n <= 0 {
        Seq::empty()
    } else {
        spec_combined_indices_upto(lms, n - 1) + spec_shifted_indices(
            lms[n - 1],
            spec_combined_verts_upto(lms, n - 1).len() as int,
        )
    }
}

/// The index stream of the whole chunk mesh.
pub open spec fn spec_combined_indices(lms: Seq<LayerMesh>) -> Seq<u32> {
    spec_combined_indices_upto(lms, CHUNK_Y_SIZE as int)
}

/// The slice of the concatenated mesh belonging to layer `y`.
pub open spec fn spec_layer_span_at(lms: Seq<LayerMesh>, y: int) -> LayerSpan {
    LayerSpan {
        v_start: spec_combined_verts_upto(lms, y).len() as u32,
        v_len: lms[y].verts@.len() as u32,
        i_start: spec_combined_indices_upto(lms, y).len() as u32,
        i_len: lms[y].indices@.len() as u32,
    }
}

/// Every layer's slice of the concatenated mesh.
pub open spec fn spec_spans(lms: Seq<LayerMesh>) -> Seq<LayerSpan> {
    Seq::new(CHUNK_Y_SIZE as nat, |y: int| spec_layer_span_at(lms, y))
}

/// A layer mesh that is exactly the mesh of layer `y` of `blocks`: the
/// layer's vertex stream with the standard index pattern over its quads.
pub open spec fn spec_layer_matches(lm: LayerMesh, blocks: Seq<Block>, offset: Vec3i, y: int) -> bool {
    &&& lm.verts@ == spec_layer_verts(blocks, offset, y)
    &&& lm.verts@.len() % 4 == 0
    &&& lm.indices@ == spec_index_seq(lm.verts@.len() as int / 4)
}

/// Two layer meshes with the same vertex and index streams.
pub open spec fn spec_lm_view_eq(a: LayerMesh, b: LayerMesh) -> bool {
    a.verts@ == b.verts@ && a.indices@ == b.indices@
}

/// Whether `update_mesh` with range `y_range` rebuilds layer `y` of a
/// chunk in state `pre`: a full remesh rebuilds every layer, a ranged one
/// rebuilds the dirty layers inside the clamped range.
pub open spec fn spec_layer_processed(pre: Chunk, y_range: Option<(usize, usize)>, y: int) -> bool {
    match y_range {
        None => 0 <= y < CHUNK_Y_SIZE,
        Some((lo, hi)) => {
            let lo2 = if lo < CHUNK_Y_SIZE {
                lo as int
            } else {
                CHUNK_Y_SIZE - 1
            };
            let hi2 = if hi < CHUNK_Y_SIZE {
                hi as int
            } else {
                CHUNK_Y_SIZE - 1
            };
            lo2 <= y <= hi2 && pre.layer_dirty@[y]
        },
    }
}

/// The ascending list of the layers below `n` that a remesh of `pre`
/// with range `y_range` rebuilds.
pub open spec fn spec_rebuilt_upto(pre: Chunk, y_range: Option<(usize, usize)>, n: int) -> Seq<
    usize,
>
    decreases n,
{
    if n <= 0 {
        Seq::empty()
    } else {
        spec_rebuilt_upto(pre, y_range, n - 1) + if spec_layer_processed(pre, y_range, n - 1) {
            seq![(n - 1) as usize]
        } else {
            Seq::empty()
        }
    }
}

/// No processed layers below `n` means no rebuilt layers below `n`.
pub proof fn lemma_rebuilt_empty_prefix(pre: Chunk, y_range: Option<(usize, usize)>, n: int)
    requires
        forall|j: int| 0 <= j < n ==> !spec_layer_processed(pre, y_range, j),
    ensures
        spec_rebuilt_upto(pre, y_range, n) == Seq::<usize>::empty(),
    decreases n,
{
    if n > 0 {
        lemma_rebuilt_empty_prefix(pre, y_range, n - 1);
        assert(spec_rebuilt_upto(pre, y_range, n) =~= Seq::<usize>::empty());
    } else {
        assert(spec_rebuilt_upto(pre, y_range, n) =~= Seq::<usize>::empty());
    }
}

/// Everything one `update_mesh` call promises: blocks and flags are
/// untouched, processed layers now hold exactly the mesh of their
/// blocks, unprocessed layers are untouched, the concatenated mesh and
/// the spans are recombined from the layer meshes, `layout_changed`
/// records whether the spans moved, the rebuilt list names the processed
/// layers, and the pending dirty range is cleared.
pub open spec fn spec_remesh_relation(pre: Chunk, post: Chunk, y_range: Option<(usize, usize)>) -> bool {
    &&& post.blocks == pre.blocks
    &&& post.offset == pre.offset
    &&& post.dirty == pre.dirty
    &&& post.needs_save == pre.needs_save
    &&& post.layer_meshes@.len() == CHUNK_Y_SIZE
    &&& post.layer_dirty@.len() == CHUNK_Y_SIZE
    &&& forall|y: int|
        0 <= y < CHUNK_Y_SIZE && spec_layer_processed(pre, y_range, y) ==> spec_layer_matches(
            #[trigger] post.layer_meshes@[y],
            pre.blocks@,
            pre.offset,
            y,
        )
    &&& forall|y: int|
        0 <= y < CHUNK_Y_SIZE && !spec_layer_processed(pre, y_range, y) ==> spec_lm_view_eq(
            #[trigger] post.layer_meshes@[y],
            pre.layer_meshes@[y],
        )
    &&& forall|y: int|
        0 <= y < CHUNK_Y_SIZE ==> #[trigger] post.layer_dirty@[y] == (if spec_layer_processed(
            pre,
            y_range,
            y,
        ) {
            false
        } else {
            pre.layer_dirty@[y]
        })
    &&& post.mesh.verts@ == spec_combined_verts(post.layer_meshes@)
    &&& post.mesh.indices@ == spec_combined_indices(post.layer_meshes@)
    &&& post.layer_spans@ == spec_spans(post.layer_meshes@)
    &&& post.layout_changed == (pre.layer_spans@ != spec_spans(post.layer_meshes@))
    &&& post.rebuilt_layers@ == spec_rebuilt_upto(pre, y_range, CHUNK_Y_SIZE as int)
    &&& post.dirty_y_range is None
}

impl Chunk {
    /// Rebuild every dirty layer in `y_start ..= y_end` from the current
    /// blocks and clear its dirty bit, returning the ascending list of
    /// the layers rebuilt. `pre` is the chunk state the surrounding
    /// remesh started from; `y_range` the range it was asked for.
    fn rebuild_range(
        &mut self,
        y_start: usize,
        y_end: usize,
        Ghost(pre): Ghost<Chunk>,
        Ghost(y_range): Ghost<Option<(usize, usize)>>,
    ) -> (rebuilt: Vec<usize>)
        requires
            old(self).wf(),
            old(self).blocks == pre.blocks,
            old(self).offset == pre.offset,
            y_end < CHUNK_Y_SIZE,
            match y_range {
                Some((lo, hi)) => {
                    &&& y_start == (if lo < CHUNK_Y_SIZE { lo as int } else { CHUNK_Y_SIZE - 1 })
                    &&& y_end == (if hi < CHUNK_Y_SIZE { hi as int } else { CHUNK_Y_SIZE - 1 })
                },
                None => y_start == 0 && y_end == CHUNK_Y_SIZE - 1,
            },
            forall|j: int|
                0 <= j < CHUNK_Y_SIZE ==> #[trigger] old(self).layer_dirty@[j] == (match y_range {
                    None => true,
                    Some(_) => pre.layer_dirty@[j],
                }),
            forall|j: int|
                0 <= j < CHUNK_Y_SIZE ==> spec_lm_view_eq(
                    #[trigger] old(self).layer_meshes@[j],
                    pre.layer_meshes@[j],
                ),
        ensures
            final(self).wf(),
            final(self).blocks == old(self).blocks,
            final(self).offset == old(self).offset,
            final(self).mesh == old(self).mesh,
            final(self).dirty == old(self).dirty,
            final(self).needs_save == old(self).needs_save,
            final(self).layer_spans == old(self).layer_spans,
            final(self).layout_changed == old(self).layout_changed,
            final(self).rebuilt_layers == old(self).rebuilt_layers,
            final(self).dirty_y_range == old(self).dirty_y_range,
            forall|j: int|
                0 <= j < CHUNK_Y_SIZE && spec_layer_processed(pre, y_range, j)
                    ==> spec_layer_matches(
                    #[trigger] final(self).layer_meshes@[j],
                    pre.blocks@,
                    pre.offset,
                    j,
                ),
            forall|j: int|
                0 <= j < CHUNK_Y_SIZE && !spec_layer_processed(pre, y_range, j)
                    ==> spec_lm_view_eq(
                    #[trigger] final(self).layer_meshes@[j],
                    pre.layer_meshes@[j],
                ),
            forall|j: int|
                0 <= j < CHUNK_Y_SIZE ==> #[trigger] final(self).layer_dirty@[j] == (
                if spec_layer_processed(pre, y_range, j) {
                    false
                } else {
                    pre.layer_dirty@[j]
                }),
            rebuilt@ == spec_rebuilt_upto(pre, y_range, CHUNK_Y_SIZE as int),
    {
        let mut rebuilt: Vec<usize> = Vec::new();
        proof {
            lemma_rebuilt_empty_prefix(pre, y_range, y_start as int);
        }
        let mut y: usize = y_start;
        while y <= y_end
            invariant
                self.wf(),
                y_end < CHUNK_Y_SIZE,
                y_start <= y,
                y <= y_end + 1 || y == y_start,
                self.blocks == old(self).blocks,
                self.offset == old(self).offset,
                self.blocks == pre.blocks,
                self.offset == pre.offset,
                self.mesh == old(self).mesh,
                self.dirty == old(self).dirty,
                self.needs_save == old(self).needs_save,
                self.layer_spans == old(self).layer_spans,
                self.layout_changed == old(self).layout_changed,
                self.rebuilt_layers == old(self).rebuilt_layers,
                self.dirty_y_range == old(self).dirty_y_range,
                match y_range {
                    Some((lo, hi)) => {
                        &&& y_start == (if lo < CHUNK_Y_SIZE { lo as int } else { CHUNK_Y_SIZE - 1 })
                        &&& y_end == (if hi < CHUNK_Y_SIZE { hi as int } else { CHUNK_Y_SIZE - 1 })
                    },
                    None => y_start == 0 && y_end == CHUNK_Y_SIZE - 1,
                },
                forall|j: int|
                    0 <= j < CHUNK_Y_SIZE && !(y_start <= j < y) ==> #[trigger] self.layer_dirty@[j]
                        == (match y_range {
                        None => true,
                        Some(_) => pre.layer_dirty@[j],
                    }),
                forall|j: int|
                    0 <= j < CHUNK_Y_SIZE && !(y_start <= j < y) ==> spec_lm_view_eq(
                        #[trigger] self.layer_meshes@[j],
                        pre.layer_meshes@[j],
                    ),
                forall|j: int|
                    y_start <= j < y && spec_layer_processed(pre, y_range, j)
                        ==> spec_layer_matches(
                        #[trigger] self.layer_meshes@[j],
                        pre.blocks@,
                        pre.offset,
                        j,
                    ),
                forall|j: int|
                    y_start <= j < y && !spec_layer_processed(pre, y_range, j) ==> spec_lm_view_eq(
                        #[trigger] self.layer_meshes@[j],
                        pre.layer_meshes@[j],
                    ),
                forall|j: int|
                    y_start <= j < y ==> #[trigger] self.layer_dirty@[j] == (
                    if spec_layer_processed(pre, y_range, j) {
                        false
                    } else {
                        pre.layer_dirty@[j]
                    }),
                rebuilt@ == spec_rebuilt_upto(pre, y_range, y as int),
            decreases y_end + 1 - y,
        {
            let is_dirty = self.layer_dirty[y];
            proof {
                assert(is_dirty == spec_layer_processed(pre, y_range, y as int));
            }
            if is_dirty {
                rebuilt.push(y);
                self.layer_dirty[y] = false;
                let lm = self.build_layer(y);
                self.layer_meshes[y] = lm;
            }
            proof {
                assert(rebuilt@ =~= spec_rebuilt_upto(pre, y_range, y as int + 1));
            }
            y = y + 1;
        }
        proof {
            assert forall|j: int|
                0 <= j < CHUNK_Y_SIZE && spec_layer_processed(pre, y_range, j) implies
                spec_layer_matches(#[trigger] self.layer_meshes@[j], pre.blocks@, pre.offset, j) by {
                assert(y_start <= j <= y_end);
            }
            assert forall|j: int|
                0 <= j < CHUNK_Y_SIZE implies #[trigger] self.layer_dirty@[j] == (
            if spec_layer_processed(pre, y_range, j) {
                false
            } else {
                pre.layer_dirty@[j]
            }) by {
                if !(y_start <= j < y) {
                    assert(!spec_layer_processed(pre, y_range, j) || (y_range is None));
                }
            }
            assert forall|j: int|
                y as int <= j < CHUNK_Y_SIZE implies !spec_layer_processed(pre, y_range, j) by {}
            lemma_rebuilt_tail_constant(pre, y_range, y as int, CHUNK_Y_SIZE as int);
        }
        rebuilt
    }

    /// Concatenate every layer's cached mesh, in ascending layer order,
    /// into one vertex stream and one re-based index stream, recording
    /// each layer's slice.
    fn combine_layers(&self) -> (r: (Vec<BlockVertex>, Vec<u32>, Vec<LayerSpan>))
        requires
            self.wf(),
        ensures
            r.0@ == spec_combined_verts(self.layer_meshes@),
            r.1@ == spec_combined_indices(self.layer_meshes@),
            r.2@ == spec_spans(self.layer_meshes@),
    {
        let ghost lms = self.layer_meshes@;
        let mut verts: Vec<BlockVertex> = Vec::new();
        let mut indices: Vec<u32> = Vec::new();
        let mut spans: Vec<LayerSpan> = Vec::new();
        let mut v_start: u32 = 0;
        let mut i_start: u32 = 0;
        let mut ly: usize = 0;
        while ly < CHUNK_Y_SIZE
            invariant
                self.wf(),
                lms == self.layer_meshes@,
                ly <= CHUNK_Y_SIZE,
                verts@ == spec_combined_verts_upto(lms, ly as int),
                indices@ == spec_combined_indices_upto(lms, ly as int),
                verts@.len() <= 6144 * ly,
                indices@.len() <= 9216 * ly,
                v_start == verts@.len(),
                i_start == indices@.len(),
                spans@.len() == ly,
                forall|j: int| 0 <= j < ly ==> spans@[j] == spec_layer_span_at(lms, j),
            decreases CHUNK_Y_SIZE - ly,
        {
            let v_len = self.layer_meshes[ly].verts.len() as u32;
            let i_len = self.layer_meshes[ly].indices.len() as u32;
            spans.push(LayerSpan { v_start, v_len, i_start, i_len });
            let mut k: usize = 0;
            let n_i = self.layer_meshes[ly].indices.len();
            while k < n_i
                invariant
                    self.wf(),
                    lms == self.layer_meshes@,
                    ly < CHUNK_Y_SIZE,
                    k <= n_i,
                    n_i == lms[ly as int].indices@.len(),
                    v_start == spec_combined_verts_upto(lms, ly as int).len(),
                    v_start <= 6144 * ly,
                    indices@ == spec_combined_indices_upto(lms, ly as int) + spec_shifted_indices(
                        lms[ly as int],
                        v_start as int,
                    ).subrange(0, k as int),
                decreases n_i - k,
            {
                let idx_val = self.layer_meshes[ly].indices[k];
                indices.push(idx_val + v_start);
                proof {
                    assert(indices@ =~= spec_combined_indices_upto(lms, ly as int)
                        + spec_shifted_indices(lms[ly as int], v_start as int).subrange(
                        0,
                        k as int + 1,
                    ));
                }
                k = k + 1;
            }
            proof {
                assert(spec_shifted_indices(lms[ly as int], v_start as int).subrange(
                    0,
                    n_i as int,
                ) =~= spec_shifted_indices(lms[ly as int], v_start as int));
                assert(indices@ =~= spec_combined_indices_upto(lms, ly as int + 1));
            }
            let mut m: usize = 0;
            let n_v = self.layer_meshes[ly].verts.len();
            while m < n_v
                invariant
                    self.wf(),
                    lms == self.layer_meshes@,
                    ly < CHUNK_Y_SIZE,
                    m <= n_v,
                    n_v == lms[ly as int].verts@.len(),
                    verts@ == spec_combined_verts_upto(lms, ly as int) + lms[ly as int].verts@
                        .subrange(0, m as int),
                decreases n_v - m,
            {
                let v = self.layer_meshes[ly].verts[m];
                verts.push(v);
                m = m + 1;
            }
            proof {
                assert(lms[ly as int].verts@.subrange(0, n_v as int) =~= lms[ly as int].verts@);
                assert(verts@ =~= spec_combined_verts_upto(lms, ly as int + 1));
            }
            v_start = v_start + v_len;
            i_start = i_start + i_len;
            ly = ly + 1;
        }
        proof {
            assert(spans@ =~= spec_spans(lms));
        }
        (verts, indices, spans)
    }
}

/// Whether two equally long span lists differ anywhere.
fn spans_differ(a: &Vec<LayerSpan>, b: &Vec<LayerSpan>) -> (r: bool)
    requires
        a@.len() == b@.len(),
    ensures
        r == (a@ != b@),
{
    let mut changed: bool = false;
    let mut j: usize = 0;
    let n = a.len();
    while j < n
        invariant
            n == a@.len(),
            n == b@.len(),
            j <= n,
            changed == exists|i: int| 0 <= i < j && a@[i] != b@[i],
        decreases n - j,
    {
        if !(a[j] == b[j]) {
            changed = true;
        }
        j = j + 1;
    }
    proof {
        if !changed {
            assert(a@ =~= b@);
        }
    }
    changed
}

impl Chunk {
    /// Rebuild the dirty layers inside `y_range` (all layers when
    /// `y_range` is `None`), then recombine every layer's cached mesh
    /// into the concatenated chunk mesh, record each layer's slice, and
    /// note whether the layout moved since the previous remesh.
    pub fn update_mesh(&mut self, _biome: BiomeParameters, y_range: Option<(usize, usize)>)
        requires
            old(self).wf(),
        ensures
            final(self).wf(),
            spec_remesh_relation(*old(self), *final(self), y_range),
    {
        let ghost pre = *old(self);
        let (y_start, y_end): (usize, usize) = match y_range {
            Some((lo, hi)) => {
                (
                    if lo < CHUNK_Y_SIZE {
                        lo
                    } else {
                        CHUNK_Y_SIZE - 1
                    },
                    if hi < CHUNK_Y_SIZE {
                        hi
                    } else {
                        CHUNK_Y_SIZE - 1
                    },
                )
            },
            None => {
                let mut layer_dirty: Vec<bool> = Vec::new();
                let mut i: usize = 0;
                while i < CHUNK_Y_SIZE
                    invariant
                        i == layer_dirty@.len(),
                        i <= CHUNK_Y_SIZE,
                        forall|j: int| 0 <= j < i ==> layer_dirty@[j] == true,
                    decreases CHUNK_Y_SIZE - i,
                {
                    layer_dirty.push(true);
                    i = i + 1;
                }
                self.layer_dirty = layer_dirty;
                (0, CHUNK_Y_SIZE - 1)
            },
        };
        let rebuilt = self.rebuild_range(y_start, y_end, Ghost(pre), Ghost(y_range));
        let (verts, indices, spans) = self.combine_layers();
        let changed = spans_differ(&self.layer_spans, &spans);
        proof {
            assert(self.layer_spans == pre.layer_spans);
            assert(changed == (pre.layer_spans@ != spec_spans(self.layer_meshes@)));
        }
        self.mesh = Mesh { verts, indices };
        self.layer_spans = spans;
        self.layout_changed = changed;
        self.rebuilt_layers = rebuilt;
        self.dirty_y_range = None;
    }
}

/// Rebuild lists grow only where layers are processed: an unprocessed
/// tail adds nothing.
pub proof fn lemma_rebuilt_tail_constant(pre: Chunk, y_range: Option<(usize, usize)>, from: int, to: int)
    requires
        0 <= from <= to,
        forall|j: int| from <= j < to ==> !spec_layer_processed(pre, y_range, j),
    ensures
        spec_rebuilt_upto(pre, y_range, to) == spec_rebuilt_upto(pre, y_range, from),
    decreases to - from,
{
    if from < to {
        lemma_rebuilt_tail_constant(pre, y_range, from, to - 1);
        assert(spec_rebuilt_upto(pre, y_range, to) =~= spec_rebuilt_upto(pre, y_range, to - 1));
    }
}

} // verus!

verus! {

/// Every cached layer mesh is exactly the mesh of the chunk's current
/// blocks.
pub open spec fn spec_layers_consistent(c: Chunk) -> bool {
    forall|y: int|
        0 <= y < CHUNK_Y_SIZE ==> spec_layer_matches(
            #[trigger] c.layer_meshes@[y],
            c.blocks@,
            c.offset,
            y,
        )
}

/// A full remesh leaves every cached layer consistent with the blocks.
pub proof fn lemma_full_remesh_consistent(pre: Chunk, post: Chunk)
    requires
        spec_remesh_relation(pre, post, None),
    ensures
        spec_layers_consistent(post),
{
    assert(post.blocks@ == pre.blocks@);
}

/// Concatenation and spans depend only on the layer meshes' vertex and
/// index streams.
pub proof fn lemma_combined_respects_views(a: Seq<LayerMesh>, b: Seq<LayerMesh>, n: int)
    requires
        a.len() == CHUNK_Y_SIZE,
        b.len() == CHUNK_Y_SIZE,
        forall|y: int| 0 <= y < CHUNK_Y_SIZE ==> spec_lm_view_eq(#[trigger] a[y], b[y]),
        0 <= n <= CHUNK_Y_SIZE,
    ensures
        spec_combined_verts_upto(a, n) == spec_combined_verts_upto(b, n),
        spec_combined_indices_upto(a, n) == spec_combined_indices_upto(b, n),
    decreases n,
{
    if n > 0 {
        lemma_combined_respects_views(a, b, n - 1);
        assert(spec_shifted_indices(a[n - 1], spec_combined_verts_upto(a, n - 1).len() as int)
            =~= spec_shifted_indices(b[n - 1], spec_combined_verts_upto(b, n - 1).len() as int));
        assert(spec_combined_verts_upto(a, n) =~= spec_combined_verts_upto(b, n));
        assert(spec_combined_indices_upto(a, n) =~= spec_combined_indices_upto(b, n));
    }
}

/// Remeshing is idempotent: remeshing a chunk whose cached layers,
/// concatenated mesh and spans already reflect its blocks leaves the
/// concatenated mesh byte-identical, the spans unchanged, and reports no
/// layout change — whatever range the second remesh is given.
pub proof fn lemma_remesh_idempotent(pre: Chunk, post: Chunk, y_range: Option<(usize, usize)>)
    requires
        pre.wf(),
        spec_layers_consistent(pre),
        pre.mesh.verts@ == spec_combined_verts(pre.layer_meshes@),
        pre.mesh.indices@ == spec_combined_indices(pre.layer_meshes@),
        pre.layer_spans@ == spec_spans(pre.layer_meshes@),
        spec_remesh_relation(pre, post, y_range),
    ensures
        post.mesh.verts@ == pre.mesh.verts@,
        post.mesh.indices@ == pre.mesh.indices@,
        post.layer_spans@ == pre.layer_spans@,
        post.layout_changed == false,
{
    assert forall|y: int|
        0 <= y < CHUNK_Y_SIZE implies spec_lm_view_eq(
        #[trigger] post.layer_meshes@[y],
        pre.layer_meshes@[y],
    ) by {
        if spec_layer_processed(pre, y_range, y) {
            assert(spec_layer_matches(post.layer_meshes@[y], pre.blocks@, pre.offset, y));
            assert(spec_layer_matches(pre.layer_meshes@[y], pre.blocks@, pre.offset, y));
        }
    }
    lemma_combined_respects_views(
        post.layer_meshes@,
        pre.layer_meshes@,
        CHUNK_Y_SIZE as int,
    );
    assert forall|y: int|
        0 <= y < CHUNK_Y_SIZE implies spec_layer_span_at(post.layer_meshes@, y)
        == spec_layer_span_at(pre.layer_meshes@, y) by {
        lemma_combined_respects_views(post.layer_meshes@, pre.layer_meshes@, y);
    }
    assert(spec_spans(post.layer_meshes@) =~= spec_spans(pre.layer_meshes@));
    assert(post.layout_changed == false);
}

} // verus!

verus! {

/// An air voxel contributes no vertices.
proof fn lemma_cell_air_empty(blocks: Seq<Block>, offset: Vec3i, y: int, x: int, z: int)
    requires
        blocks[spec_chunk_index(y, x, z)].material_type == MaterialType::AIR,
    ensures
        spec_cell_verts(blocks, offset, y, x, z).len() == 0,
{
    assert forall|d: int| 0 <= d < 6 implies spec_face_verts(blocks, offset, y, x, z, d)
        == Seq::<BlockVertex>::empty() by {
        assert(!spec_face_emits(blocks, y, x, z, d));
    }
    reveal_with_fuel(spec_cell_verts_upto, 7);
    assert(spec_cell_verts(blocks, offset, y, x, z) =~= Seq::<BlockVertex>::empty());
}

/// A voxel's vertex count is four per emitting face; stated by unrolling
/// the six faces.
proof fn lemma_cell_verts_len(blocks: Seq<Block>, offset: Vec3i, y: int, x: int, z: int)
    ensures
        spec_cell_verts(blocks, offset, y, x, z).len() == 4 * (
        (if spec_face_emits(blocks, y, x, z, 0) { 1int } else { 0int })
        + (if spec_face_emits(blocks, y, x, z, 1) { 1int } else { 0int })
        + (if spec_face_emits(blocks, y, x, z, 2) { 1int } else { 0int })
        + (if spec_face_emits(blocks, y, x, z, 3) { 1int } else { 0int })
        + (if spec_face_emits(blocks, y, x, z, 4) { 1int } else { 0int })
        + (if spec_face_emits(blocks, y, x, z, 5) { 1int } else { 0int })),
{
    reveal_with_fuel(spec_cell_verts_upto, 7);
    assert forall|d: int| 0 <= d < 6 implies spec_face_verts(blocks, offset, y, x, z, d).len()
        == (if spec_face_emits(blocks, y, x, z, d) { 4int } else { 0int }) by {}
}

/// The vertex count of a layer prefix when at most two cells contribute
/// anything: the sum of the contributions of the special cells already
/// passed.
proof fn lemma_layer_len_two_cells(
    blocks: Seq<Block>,
    offset: Vec3i,
    y: int,
    c1: int,
    c2: int,
    n: int,
)
    requires
        0 <= c1 <= c2 < CHUNK_AREA * CHUNK_AREA,
        0 <= n <= CHUNK_AREA * CHUNK_AREA,
        forall|c: int|
            0 <= c < CHUNK_AREA * CHUNK_AREA && c != c1 && c != c2 ==> spec_cell_verts(
                blocks,
                offset,
                y,
                spec_cell_x(c),
                spec_cell_z(c),
            ).len() == 0,
    ensures
        spec_layer_verts_upto(blocks, offset, y, n).len() == (if c1 < n {
            spec_cell_verts(blocks, offset, y, spec_cell_x(c1), spec_cell_z(c1)).len() as int
        } else {
            0
        }) + (if c2 < n && c2 != c1 {
            spec_cell_verts(blocks, offset, y, spec_cell_x(c2), spec_cell_z(c2)).len() as int
        } else {
            0
        }),
    decreases n,
{
    if n > 0 {
        lemma_layer_len_two_cells(blocks, offset, y, c1, c2, n - 1);
    }
}

/// The combined mesh length when a single layer contributes anything.
proof fn lemma_combined_len_single_layer(lms: Seq<LayerMesh>, y0: int, n: int)
    requires
        lms.len() == CHUNK_Y_SIZE,
        0 <= y0 < CHUNK_Y_SIZE,
        0 <= n <= CHUNK_Y_SIZE,
        forall|y: int|
            0 <= y < CHUNK_Y_SIZE && y != y0 ==> (#[trigger] lms[y].verts@.len()) == 0
                && lms[y].indices@.len() == 0,
    ensures
        spec_combined_verts_upto(lms, n).len() == (if y0 < n {
            lms[y0].verts@.len() as int
        } else {
            0
        }),
        spec_combined_indices_upto(lms, n).len() == (if y0 < n {
            lms[y0].indices@.len() as int
        } else {
            0
        }),
    decreases n,
{
    if n > 0 {
        lemma_combined_len_single_layer(lms, y0, n - 1);
    }
}

/// A layer whose interior voxels are all air has an empty mesh.
proof fn lemma_layer_air(blocks: Seq<Block>, offset: Vec3i, y: int)
    requires
        forall|x: int, z: int|
            1 <= x <= CHUNK_AREA && 1 <= z <= CHUNK_AREA ==> blocks[spec_chunk_index(
                y,
                x,
                z,
            )].material_type == MaterialType::AIR,
    ensures
        spec_layer_verts(blocks, offset, y).len() == 0,
{
    assert forall|c: int|
        0 <= c < CHUNK_AREA * CHUNK_AREA && c != 0 && c != 0 implies spec_cell_verts(
        blocks,
        offset,
        y,
        spec_cell_x(c),
        spec_cell_z(c),
    ).len() == 0 by {
        lemma_cell_coords(c);
        lemma_cell_air_empty(blocks, offset, y, spec_cell_x(c), spec_cell_z(c));
    }
    lemma_cell_coords(0);
    lemma_cell_air_empty(blocks, offset, y, spec_cell_x(0), spec_cell_z(0));
    lemma_layer_len_two_cells(blocks, offset, y, 0, 0, (CHUNK_AREA * CHUNK_AREA) as int);
}

/// The interior cell coordinates of cell number `c`.
proof fn lemma_cell_coords(c: int)
    requires
        0 <= c < CHUNK_AREA * CHUNK_AREA,
    ensures
        1 <= spec_cell_x(c) <= CHUNK_AREA,
        1 <= spec_cell_z(c) <= CHUNK_AREA,
{
    vstd::arithmetic::div_mod::lemma_fundamental_div_mod(c, 16);
    vstd::arithmetic::div_mod::lemma_mod_bound(c, 16);
    assert(0 <= c / 16 < 16) by (nonlinear_arith)
        requires
            c == 16 * (c / 16) + c % 16,
            0 <= c % 16 < 16,
            0 <= c < 256,
    ;
}

/// The cell number of the interior cell at `(x, z)`.
proof fn lemma_cell_number(x: int, z: int)
    requires
        1 <= x <= CHUNK_AREA,
        1 <= z <= CHUNK_AREA,
    ensures
        0 <= (x - 1) * 16 + (z - 1) < CHUNK_AREA * CHUNK_AREA,
        spec_cell_x((x - 1) * 16 + (z - 1)) == x,
        spec_cell_z((x - 1) * 16 + (z - 1)) == z,
{
    let c = (x - 1) * 16 + (z - 1);
    vstd::arithmetic::div_mod::lemma_fundamental_div_mod_converse(c, 16, x - 1, z - 1);
}

} // verus!

verus! {

/// Face culling, isolated case: remeshing a chunk that holds a single
/// non-air voxel in its interior, with air everywhere else, produces
/// exactly six quads — 24 vertices and 36 indices.
#[verifier::rlimit(60)]
pub proof fn lemma_isolated_voxel_six_quads(pre: Chunk, post: Chunk, y0: int, x0: int, z0: int)
    requires
        pre.wf(),
        0 <= y0 < CHUNK_Y_SIZE,
        1 <= x0 <= CHUNK_AREA,
        1 <= z0 <= CHUNK_AREA,
        pre.blocks@[spec_chunk_index(y0, x0, z0)].material_type != MaterialType::AIR,
        forall|k: int|
            0 <= k < TOTAL_CHUNK_SIZE && k != spec_chunk_index(y0, x0, z0) ==> (
            #[trigger] pre.blocks@[k]).material_type == MaterialType::AIR,
        spec_remesh_relation(pre, post, None),
    ensures
        post.mesh.verts@.len() == 24,
        post.mesh.indices@.len() == 36,
{
    let blocks = pre.blocks@;
    let offset = pre.offset;
    let k0 = spec_chunk_index(y0, x0, z0);
    lemma_chunk_index_coords(y0, x0, z0);
    assert forall|d: int| 0 <= d < 6 implies spec_face_emits(blocks, y0, x0, z0, d) by {
        let p = spec_neighbor_local(y0, x0, z0, d);
        if spec_pos_in_chunk_bounds(p) {
            let ny = p.y as int;
            let nx = p.x + 1;
            let nz = p.z + 1;
            assert(spec_grid_pos_in_bounds(ny, nx, nz));
            assert(!(ny == y0 && nx == x0 && nz == z0));
            lemma_chunk_index_coords(ny, nx, nz);
            if spec_chunk_index(ny, nx, nz) == k0 {
                lemma_chunk_index_injective(ny, nx, nz, y0, x0, z0);
            }
            assert(blocks[spec_chunk_index(ny, nx, nz)].material_type == MaterialType::AIR);
        }
    }
    lemma_cell_verts_len(blocks, offset, y0, x0, z0);
    assert(spec_cell_verts(blocks, offset, y0, x0, z0).len() == 24);
    let c0 = (x0 - 1) * 16 + (z0 - 1);
    lemma_cell_number(x0, z0);
    assert forall|c: int|
        0 <= c < CHUNK_AREA * CHUNK_AREA && c != c0 && c != c0 implies spec_cell_verts(
        blocks,
        offset,
        y0,
        spec_cell_x(c),
        spec_cell_z(c),
    ).len() == 0 by {
        lemma_cell_coords(c);
        let x = spec_cell_x(c);
        let z = spec_cell_z(c);
        lemma_cell_number(x, z);
        assert(!(x == x0 && z == z0));
        if spec_chunk_index(y0, x, z) == k0 {
            lemma_chunk_index_injective(y0, x, z, y0, x0, z0);
        }
        lemma_chunk_index_coords(y0, x, z);
        lemma_cell_air_empty(blocks, offset, y0, x, z);
    }
    lemma_layer_len_two_cells(blocks, offset, y0, c0, c0, (CHUNK_AREA * CHUNK_AREA) as int);
    assert(spec_layer_verts(blocks, offset, y0).len() == 24);
    assert forall|y: int| 0 <= y < CHUNK_Y_SIZE && y != y0 implies spec_layer_verts(
        blocks,
        offset,
        y,
    ).len() == 0 by {
        assert forall|x: int, z: int|
            1 <= x <= CHUNK_AREA && 1 <= z <= CHUNK_AREA implies blocks[spec_chunk_index(
            y,
            x,
            z,
        )].material_type == MaterialType::AIR by {
            lemma_chunk_index_coords(y, x, z);
            if spec_chunk_index(y, x, z) == k0 {
                lemma_chunk_index_injective(y, x, z, y0, x0, z0);
            }
        }
        lemma_layer_air(blocks, offset, y);
    }
    let lms = post.layer_meshes@;
    assert forall|y: int|
        0 <= y < CHUNK_Y_SIZE && y != y0 implies (#[trigger] lms[y].verts@.len()) == 0
        && lms[y].indices@.len() == 0 by {
        assert(spec_layer_matches(lms[y], blocks, offset, y));
    }
    assert(spec_layer_matches(lms[y0], blocks, offset, y0));
    assert(lms[y0].verts@.len() == 24);
    assert(lms[y0].indices@.len() == 36);
    lemma_combined_len_single_layer(lms, y0, CHUNK_Y_SIZE as int);
}

/// Face culling, shared-face case: remeshing a chunk that holds exactly
/// two non-air voxels side by side on the `x` axis, with air everywhere
/// else, produces exactly ten quads — the shared face is suppressed on
/// both sides — 40 vertices and 60 indices.
#[verifier::rlimit(100)]
pub proof fn lemma_adjacent_voxels_ten_quads(pre: Chunk, post: Chunk, y0: int, x0: int, z0: int)
    requires
        pre.wf(),
        0 <= y0 < CHUNK_Y_SIZE,
        1 <= x0 <= CHUNK_AREA - 1,
        1 <= z0 <= CHUNK_AREA,
        pre.blocks@[spec_chunk_index(y0, x0, z0)].material_type != MaterialType::AIR,
        pre.blocks@[spec_chunk_index(y0, x0 + 1, z0)].material_type != MaterialType::AIR,
        forall|k: int|
            0 <= k < TOTAL_CHUNK_SIZE && k != spec_chunk_index(y0, x0, z0) && k
                != spec_chunk_index(y0, x0 + 1, z0) ==> (#[trigger] pre.blocks@[k]).material_type
                == MaterialType::AIR,
        spec_remesh_relation(pre, post, None),
    ensures
        post.mesh.verts@.len() == 40,
        post.mesh.indices@.len() == 60,
{
    let blocks = pre.blocks@;
    let offset = pre.offset;
    let ka = spec_chunk_index(y0, x0, z0);
    let kb = spec_chunk_index(y0, x0 + 1, z0);
    lemma_chunk_index_coords(y0, x0, z0);
    lemma_chunk_index_coords(y0, x0 + 1, z0);
    assert forall|d: int| 0 <= d < 6 implies spec_face_emits(blocks, y0, x0, z0, d) == (d != 2)
        by {
        let p = spec_neighbor_local(y0, x0, z0, d);
        if d == 2 {
            assert(spec_pos_in_chunk_bounds(p));
            assert(p.y as int == y0 && p.x + 1 == x0 + 1 && p.z + 1 == z0);
            assert(blocks[kb].material_type != MaterialType::AIR);
        } else {
            if spec_pos_in_chunk_bounds(p) {
                let ny = p.y as int;
                let nx = p.x + 1;
                let nz = p.z + 1;
                assert(spec_grid_pos_in_bounds(ny, nx, nz));
                lemma_chunk_index_coords(ny, nx, nz);
                if spec_chunk_index(ny, nx, nz) == ka {
                    lemma_chunk_index_injective(ny, nx, nz, y0, x0, z0);
                }
                if spec_chunk_index(ny, nx, nz) == kb {
                    lemma_chunk_index_injective(ny, nx, nz, y0, x0 + 1, z0);
                }
                assert(blocks[spec_chunk_index(ny, nx, nz)].material_type == MaterialType::AIR);
            }
        }
    }
    let x1 = x0 + 1;
    assert forall|d: int| 0 <= d < 6 implies spec_face_emits(blocks, y0, x1, z0, d) == (d
        != 3) by {
        let p = spec_neighbor_local(y0, x1, z0, d);
        if d == 3 {
            assert(spec_pos_in_chunk_bounds(p));
            assert(p.y as int == y0 && p.x + 1 == x0 && p.z + 1 == z0);
            assert(blocks[ka].material_type != MaterialType::AIR);
        } else {
            if spec_pos_in_chunk_bounds(p) {
                let ny = p.y as int;
                let nx = p.x + 1;
                let nz = p.z + 1;
                assert(spec_grid_pos_in_bounds(ny, nx, nz));
                lemma_chunk_index_coords(ny, nx, nz);
                if spec_chunk_index(ny, nx, nz) == ka {
                    lemma_chunk_index_injective(ny, nx, nz, y0, x0, z0);
                }
                if spec_chunk_index(ny, nx, nz) == kb {
                    lemma_chunk_index_injective(ny, nx, nz, y0, x0 + 1, z0);
                }
                assert(blocks[spec_chunk_index(ny, nx, nz)].material_type == MaterialType::AIR);
            }
        }
    }
    lemma_cell_verts_len(blocks, offset, y0, x0, z0);
    lemma_cell_verts_len(blocks, offset, y0, x0 + 1, z0);
    assert(spec_cell_verts(blocks, offset, y0, x0, z0).len() == 20);
    assert(spec_cell_verts(blocks, offset, y0, x0 + 1, z0).len() == 20);
    let c1 = (x0 - 1) * 16 + (z0 - 1);
    let c2 = x0 * 16 + (z0 - 1);
    lemma_cell_number(x0, z0);
    lemma_cell_number(x0 + 1, z0);
    assert(c2 == ((x0 + 1) - 1) * 16 + (z0 - 1));
    assert forall|c: int|
        0 <= c < CHUNK_AREA * CHUNK_AREA && c != c1 && c != c2 implies spec_cell_verts(
        blocks,
        offset,
        y0,
        spec_cell_x(c),
        spec_cell_z(c),
    ).len() == 0 by {
        lemma_cell_coords(c);
        let x = spec_cell_x(c);
        let z = spec_cell_z(c);
        lemma_cell_number(x, z);
        assert(!(x == x0 && z == z0) && !(x == x0 + 1 && z == z0));
        if spec_chunk_index(y0, x, z) == ka {
            lemma_chunk_index_injective(y0, x, z, y0, x0, z0);
        }
        if spec_chunk_index(y0, x, z) == kb {
            lemma_chunk_index_injective(y0, x, z, y0, x0 + 1, z0);
        }
        lemma_chunk_index_coords(y0, x, z);
        lemma_cell_air_empty(blocks, offset, y0, x, z);
    }
    assert(c1 < c2);
    lemma_layer_len_two_cells(blocks, offset, y0, c1, c2, (CHUNK_AREA * CHUNK_AREA) as int);
    assert(spec_layer_verts(blocks, offset, y0).len() == 40);
    assert forall|y: int| 0 <= y < CHUNK_Y_SIZE && y != y0 implies spec_layer_verts(
        blocks,
        offset,
        y,
    ).len() == 0 by {
        assert forall|x: int, z: int|
            1 <= x <= CHUNK_AREA && 1 <= z <= CHUNK_AREA implies blocks[spec_chunk_index(
            y,
            x,
            z,
        )].material_type == MaterialType::AIR by {
            lemma_chunk_index_coords(y, x, z);
            if spec_chunk_index(y, x, z) == ka {
                lemma_chunk_index_injective(y, x, z, y0, x0, z0);
            }
            if spec_chunk_index(y, x, z) == kb {
                lemma_chunk_index_injective(y, x, z, y0, x0 + 1, z0);
            }
        }
        lemma_layer_air(blocks, offset, y);
    }
    let lms = post.layer_meshes@;
    assert forall|y: int|
        0 <= y < CHUNK_Y_SIZE && y != y0 implies (#[trigger] lms[y].verts@.len()) == 0
        && lms[y].indices@.len() == 0 by {
        assert(spec_layer_matches(lms[y], blocks, offset, y));
    }
    assert(spec_layer_matches(lms[y0], blocks, offset, y0));
    assert(lms[y0].verts@.len() == 40);
    assert(lms[y0].indices@.len() == 60);
    lemma_combined_len_single_layer(lms, y0, CHUNK_Y_SIZE as int);
}

} // verus!

verus! {

/// The combined mesh length when exactly two layers contribute anything.
proof fn lemma_combined_len_two_layers(lms: Seq<LayerMesh>, y1: int, y2: int, n: int)
    requires
        lms.len() == CHUNK_Y_SIZE,
        0 <= y1 < y2 < CHUNK_Y_SIZE,
        0 <= n <= CHUNK_Y_SIZE,
        forall|y: int|
            0 <= y < CHUNK_Y_SIZE && y != y1 && y != y2 ==> (#[trigger] lms[y].verts@.len()) == 0
                && lms[y].indices@.len() == 0,
    ensures
        spec_combined_verts_upto(lms, n).len() == (if y1 < n {
            lms[y1].verts@.len() as int
        } else {
            0
        }) + (if y2 < n {
            lms[y2].verts@.len() as int
        } else {
            0
        }),
        spec_combined_indices_upto(lms, n).len() == (if y1 < n {
            lms[y1].indices@.len() as int
        } else {
            0
        }) + (if y2 < n {
            lms[y2].indices@.len() as int
        } else {
            0
        }),
    decreases n,
{
    if n > 0 {
        lemma_combined_len_two_layers(lms, y1, y2, n - 1);
    }
}

/// Face culling, stacked case: remeshing a chunk that holds exactly two
/// non-air voxels on top of each other, with air everywhere else,
/// produces exactly ten quads — the shared horizontal face is suppressed
/// on both sides — 40 vertices and 60 indices.
#[verifier::rlimit(100)]
pub proof fn lemma_stacked_voxels_ten_quads(pre: Chunk, post: Chunk, y0: int, x0: int, z0: int)
    requires
        pre.wf(),
        0 <= y0 < CHUNK_Y_SIZE - 1,
        1 <= x0 <= CHUNK_AREA,
        1 <= z0 <= CHUNK_AREA,
        pre.blocks@[spec_chunk_index(y0, x0, z0)].material_type != MaterialType::AIR,
        pre.blocks@[spec_chunk_index(y0 + 1, x0, z0)].material_type != MaterialType::AIR,
        forall|k: int|
            0 <= k < TOTAL_CHUNK_SIZE && k != spec_chunk_index(y0, x0, z0) && k
                != spec_chunk_index(y0 + 1, x0, z0) ==> (#[trigger] pre.blocks@[k]).material_type
                == MaterialType::AIR,
        spec_remesh_relation(pre, post, None),
    ensures
        post.mesh.verts@.len() == 40,
        post.mesh.indices@.len() == 60,
{
    let blocks = pre.blocks@;
    let offset = pre.offset;
    let ka = spec_chunk_index(y0, x0, z0);
    let y1 = y0 + 1;
    let kb = spec_chunk_index(y1, x0, z0);
    lemma_chunk_index_coords(y0, x0, z0);
    lemma_chunk_index_coords(y1, x0, z0);
    assert forall|d: int| 0 <= d < 6 implies spec_face_emits(blocks, y0, x0, z0, d) == (d != 0)
        by {
        let p = spec_neighbor_local(y0, x0, z0, d);
        if d == 0 {
            assert(spec_pos_in_chunk_bounds(p));
            assert(p.y as int == y1 && p.x + 1 == x0 && p.z + 1 == z0);
            assert(blocks[kb].material_type != MaterialType::AIR);
        } else {
            if spec_pos_in_chunk_bounds(p) {
                let ny = p.y as int;
                let nx = p.x + 1;
                let nz = p.z + 1;
                assert(spec_grid_pos_in_bounds(ny, nx, nz));
                lemma_chunk_index_coords(ny, nx, nz);
                if spec_chunk_index(ny, nx, nz) == ka {
                    lemma_chunk_index_injective(ny, nx, nz, y0, x0, z0);
                }
                if spec_chunk_index(ny, nx, nz) == kb {
                    lemma_chunk_index_injective(ny, nx, nz, y1, x0, z0);
                }
                assert(blocks[spec_chunk_index(ny, nx, nz)].material_type == MaterialType::AIR);
            }
        }
    }
    assert forall|d: int| 0 <= d < 6 implies spec_face_emits(blocks, y1, x0, z0, d) == (d != 1)
        by {
        let p = spec_neighbor_local(y1, x0, z0, d);
        if d == 1 {
            assert(spec_pos_in_chunk_bounds(p));
            assert(p.y as int == y0 && p.x + 1 == x0 && p.z + 1 == z0);
            assert(blocks[ka].material_type != MaterialType::AIR);
        } else {
            if spec_pos_in_chunk_bounds(p) {
                let ny = p.y as int;
                let nx = p.x + 1;
                let nz = p.z + 1;
                assert(spec_grid_pos_in_bounds(ny, nx, nz));
                lemma_chunk_index_coords(ny, nx, nz);
                if spec_chunk_index(ny, nx, nz) == ka {
                    lemma_chunk_index_injective(ny, nx, nz, y0, x0, z0);
                }
                if spec_chunk_index(ny, nx, nz) == kb {
                    lemma_chunk_index_injective(ny, nx, nz, y1, x0, z0);
                }
                assert(blocks[spec_chunk_index(ny, nx, nz)].material_type == MaterialType::AIR);
            }
        }
    }
    lemma_cell_verts_len(blocks, offset, y0, x0, z0);
    lemma_cell_verts_len(blocks, offset, y1, x0, z0);
    assert(spec_cell_verts(blocks, offset, y0, x0, z0).len() == 20);
    assert(spec_cell_verts(blocks, offset, y1, x0, z0).len() == 20);
    let c0 = (x0 - 1) * 16 + (z0 - 1);
    lemma_cell_number(x0, z0);
    assert forall|y: int|
        0 <= y < CHUNK_Y_SIZE && (y == y0 || y == y1) implies spec_layer_verts(
        blocks,
        offset,
        y,
    ).len() == 20 by {
        assert forall|c: int|
            0 <= c < CHUNK_AREA * CHUNK_AREA && c != c0 && c != c0 implies spec_cell_verts(
            blocks,
            offset,
            y,
            spec_cell_x(c),
            spec_cell_z(c),
        ).len() == 0 by {
            lemma_cell_coords(c);
            let x = spec_cell_x(c);
            let z = spec_cell_z(c);
            lemma_cell_number(x, z);
            assert(!(x == x0 && z == z0));
            if spec_chunk_index(y, x, z) == ka {
                lemma_chunk_index_injective(y, x, z, y0, x0, z0);
            }
            if spec_chunk_index(y, x, z) == kb {
                lemma_chunk_index_injective(y, x, z, y1, x0, z0);
            }
            lemma_chunk_index_coords(y, x, z);
            lemma_cell_air_empty(blocks, offset, y, x, z);
        }
        lemma_layer_len_two_cells(blocks, offset, y, c0, c0, (CHUNK_AREA * CHUNK_AREA) as int);
    }
    assert forall|y: int|
        0 <= y < CHUNK_Y_SIZE && y != y0 && y != y1 implies spec_layer_verts(
        blocks,
        offset,
        y,
    ).len() == 0 by {
        assert forall|x: int, z: int|
            1 <= x <= CHUNK_AREA && 1 <= z <= CHUNK_AREA implies blocks[spec_chunk_index(
            y,
            x,
            z,
        )].material_type == MaterialType::AIR by {
            lemma_chunk_index_coords(y, x, z);
            if spec_chunk_index(y, x, z) == ka {
                lemma_chunk_index_injective(y, x, z, y0, x0, z0);
            }
            if spec_chunk_index(y, x, z) == kb {
                lemma_chunk_index_injective(y, x, z, y1, x0, z0);
            }
        }
        lemma_layer_air(blocks, offset, y);
    }
    let lms = post.layer_meshes@;
    assert forall|y: int|
        0 <= y < CHUNK_Y_SIZE && y != y0 && y != y1 implies (#[trigger] lms[y].verts@.len()) == 0
        && lms[y].indices@.len() == 0 by {
        assert(spec_layer_matches(lms[y], blocks, offset, y));
    }
    assert(spec_layer_matches(lms[y0], blocks, offset, y0));
    assert(spec_layer_matches(lms[y1], blocks, offset, y1));
    assert(lms[y0].verts@.len() == 20 && lms[y0].indices@.len() == 30);
    assert(lms[y1].verts@.len() == 20 && lms[y1].indices@.len() == 30);
    lemma_combined_len_two_layers(lms, y0, y1, CHUNK_Y_SIZE as int);
}

} // verus!

verus! {

/// Face culling, shared-face case along the other horizontal axis:
/// remeshing a chunk that holds exactly two non-air voxels side by side
/// on the `z` axis, with air everywhere else, produces exactly ten quads
/// — the shared face is suppressed on both sides — 40 vertices and 60
/// indices.
#[verifier::rlimit(100)]
pub proof fn lemma_adjacent_voxels_z_ten_quads(pre: Chunk, post: Chunk, y0: int, x0: int, z0: int)
    requires
        pre.wf(),
        0 <= y0 < CHUNK_Y_SIZE,
        1 <= x0 <= CHUNK_AREA,
        1 <= z0 <= CHUNK_AREA - 1,
        pre.blocks@[spec_chunk_index(y0, x0, z0)].material_type != MaterialType::AIR,
        pre.blocks@[spec_chunk_index(y0, x0, z0 + 1)].material_type != MaterialType::AIR,
        forall|k: int|
            0 <= k < TOTAL_CHUNK_SIZE && k != spec_chunk_index(y0, x0, z0) && k
                != spec_chunk_index(y0, x0, z0 + 1) ==> (#[trigger] pre.blocks@[k]).material_type
                == MaterialType::AIR,
        spec_remesh_relation(pre, post, None),
    ensures
        post.mesh.verts@.len() == 40,
        post.mesh.indices@.len() == 60,
{
    let blocks = pre.blocks@;
    let offset = pre.offset;
    let ka = spec_chunk_index(y0, x0, z0);
    let z1 = z0 + 1;
    let kb = spec_chunk_index(y0, x0, z1);
    lemma_chunk_index_coords(y0, x0, z0);
    lemma_chunk_index_coords(y0, x0, z1);
    assert forall|d: int| 0 <= d < 6 implies spec_face_emits(blocks, y0, x0, z0, d) == (d != 4)
        by {
        let p = spec_neighbor_local(y0, x0, z0, d);
        if d == 4 {
            assert(spec_pos_in_chunk_bounds(p));
            assert(p.y as int == y0 && p.x + 1 == x0 && p.z + 1 == z1);
            assert(blocks[kb].material_type != MaterialType::AIR);
        } else {
            if spec_pos_in_chunk_bounds(p) {
                let ny = p.y as int;
                let nx = p.x + 1;
                let nz = p.z + 1;
                assert(spec_grid_pos_in_bounds(ny, nx, nz));
                lemma_chunk_index_coords(ny, nx, nz);
                if spec_chunk_index(ny, nx, nz) == ka {
                    lemma_chunk_index_injective(ny, nx, nz, y0, x0, z0);
                }
                if spec_chunk_index(ny, nx, nz) == kb {
                    lemma_chunk_index_injective(ny, nx, nz, y0, x0, z1);
                }
                assert(blocks[spec_chunk_index(ny, nx, nz)].material_type == MaterialType::AIR);
            }
        }
    }
    assert forall|d: int| 0 <= d < 6 implies spec_face_emits(blocks, y0, x0, z1, d) == (d != 5)
        by {
        let p = spec_neighbor_local(y0, x0, z1, d);
        if d == 5 {
            assert(spec_pos_in_chunk_bounds(p));
            assert(p.y as int == y0 && p.x + 1 == x0 && p.z + 1 == z0);
            assert(blocks[ka].material_type != MaterialType::AIR);
        } else {
            if spec_pos_in_chunk_bounds(p) {
                let ny = p.y as int;
                let nx = p.x + 1;
                let nz = p.z + 1;
                assert(spec_grid_pos_in_bounds(ny, nx, nz));
                lemma_chunk_index_coords(ny, nx, nz);
                if spec_chunk_index(ny, nx, nz) == ka {
                    lemma_chunk_index_injective(ny, nx, nz, y0, x0, z0);
                }
                if spec_chunk_index(ny, nx, nz) == kb {
                    lemma_chunk_index_injective(ny, nx, nz, y0, x0, z1);
                }
                assert(blocks[spec_chunk_index(ny, nx, nz)].material_type == MaterialType::AIR);
            }
        }
    }
    lemma_cell_verts_len(blocks, offset, y0, x0, z0);
    lemma_cell_verts_len(blocks, offset, y0, x0, z1);
    assert(spec_cell_verts(blocks, offset, y0, x0, z0).len() == 20);
    assert(spec_cell_verts(blocks, offset, y0, x0, z1).len() == 20);
    let c1 = (x0 - 1) * 16 + (z0 - 1);
    let c2 = (x0 - 1) * 16 + (z1 - 1);
    lemma_cell_number(x0, z0);
    lemma_cell_number(x0, z1);
    assert forall|c: int|
        0 <= c < CHUNK_AREA * CHUNK_AREA && c != c1 && c != c2 implies spec_cell_verts(
        blocks,
        offset,
        y0,
        spec_cell_x(c),
        spec_cell_z(c),
    ).len() == 0 by {
        lemma_cell_coords(c);
        let x = spec_cell_x(c);
        let z = spec_cell_z(c);
        lemma_cell_number(x, z);
        assert(!(x == x0 && z == z0) && !(x == x0 && z == z1));
        if spec_chunk_index(y0, x, z) == ka {
            lemma_chunk_index_injective(y0, x, z, y0, x0, z0);
        }
        if spec_chunk_index(y0, x, z) == kb {
            lemma_chunk_index_injective(y0, x, z, y0, x0, z1);
        }
        lemma_chunk_index_coords(y0, x, z);
        lemma_cell_air_empty(blocks, offset, y0, x, z);
    }
    assert(c1 < c2);
    lemma_layer_len_two_cells(blocks, offset, y0, c1, c2, (CHUNK_AREA * CHUNK_AREA) as int);
    assert(spec_layer_verts(blocks, offset, y0).len() == 40);
    assert forall|y: int| 0 <= y < CHUNK_Y_SIZE && y != y0 implies spec_layer_verts(
        blocks,
        offset,
        y,
    ).len() == 0 by {
        assert forall|x: int, z: int|
            1 <= x <= CHUNK_AREA && 1 <= z <= CHUNK_AREA implies blocks[spec_chunk_index(
            y,
            x,
            z,
        )].material_type == MaterialType::AIR by {
            lemma_chunk_index_coords(y, x, z);
            if spec_chunk_index(y, x, z) == ka {
                lemma_chunk_index_injective(y, x, z, y0, x0, z0);
            }
            if spec_chunk_index(y, x, z) == kb {
                lemma_chunk_index_injective(y, x, z, y0, x0, z1);
            }
        }
        lemma_layer_air(blocks, offset, y);
    }
    let lms = post.layer_meshes@;
    assert forall|y: int|
        0 <= y < CHUNK_Y_SIZE && y != y0 implies (#[trigger] lms[y].verts@.len()) == 0
        && lms[y].indices@.len() == 0 by {
        assert(spec_layer_matches(lms[y], blocks, offset, y));
    }
    assert(spec_layer_matches(lms[y0], blocks, offset, y0));
    assert(lms[y0].verts@.len() == 40);
    assert(lms[y0].indices@.len() == 60);
    lemma_combined_len_single_layer(lms, y0, CHUNK_Y_SIZE as int);
}

} // verus!
