use terracore::biomes::BiomeParameters;
use terracore::block::MaterialType;
use terracore::chunk::{Chunk, CHUNK_AREA_WITH_PADDING, CHUNK_Y_SIZE};
use terracore::coords::Vec3i;

fn prairie() -> BiomeParameters {
    BiomeParameters {
        base_height: 10,
        amplitude: 6,
        frequency: 32,
    }
}

/// A chunk holding nothing but air, padding included.
fn all_air_chunk() -> Chunk {
    let mut c = Chunk::new(Vec3i::new(0, 0, 0));
    for y in 0..CHUNK_Y_SIZE {
        for x in 0..CHUNK_AREA_WITH_PADDING {
            for z in 0..CHUNK_AREA_WITH_PADDING {
                assert!(c.set_block(y, x, z, MaterialType::AIR));
            }
        }
    }
    c
}

#[test]
fn all_air_chunk_meshes_to_nothing() {
    let mut c = all_air_chunk();
    c.update_mesh(prairie(), None);
    assert_eq!(c.mesh.verts.len(), 0);
    assert_eq!(c.mesh.indices.len(), 0);
}

#[test]
fn isolated_voxel_emits_exactly_six_quads() {
    let mut c = all_air_chunk();
    assert!(c.set_block(100, 8, 8, MaterialType::ROCK));
    c.update_mesh(prairie(), None);
    assert_eq!(c.mesh.verts.len(), 24);
    assert_eq!(c.mesh.indices.len(), 36);
}

#[test]
fn two_adjacent_voxels_emit_exactly_ten_quads() {
    let mut c = all_air_chunk();
    assert!(c.set_block(100, 8, 8, MaterialType::ROCK));
    assert!(c.set_block(100, 9, 8, MaterialType::DIRT));
    c.update_mesh(prairie(), None);
    // The shared face is suppressed on both sides: 2 * 6 - 2 = 10 quads.
    assert_eq!(c.mesh.verts.len(), 40);
    assert_eq!(c.mesh.indices.len(), 60);
}

#[test]
fn padding_suppresses_boundary_faces() {
    let mut c = all_air_chunk();
    // A voxel on the interior edge; its outward face looks at padding.
    assert!(c.set_block(100, 1, 8, MaterialType::ROCK));
    c.update_mesh(prairie(), None);
    assert_eq!(c.mesh.verts.len(), 24);
    // Mirror a neighbouring chunk's voxel into the padding ring: the
    // face toward it disappears.
    assert!(c.set_block(100, 0, 8, MaterialType::ROCK));
    c.update_mesh(prairie(), None);
    // Padding voxels are never emission sources: only five faces remain.
    assert_eq!(c.mesh.verts.len(), 20);
    assert_eq!(c.mesh.indices.len(), 30);
}

#[test]
fn remesh_without_edits_is_byte_identical() {
    let mut c = all_air_chunk();
    assert!(c.set_block(100, 8, 8, MaterialType::ROCK));
    assert!(c.set_block(101, 8, 8, MaterialType::GRASS));
    assert!(c.set_block(4, 3, 12, MaterialType::WATER));
    c.update_mesh(prairie(), None);
    let verts1 = c.mesh.verts.clone();
    let indices1 = c.mesh.indices.clone();
    let spans1 = c.layer_spans().clone();

    c.update_mesh(prairie(), None);
    assert_eq!(c.mesh.verts, verts1);
    assert_eq!(c.mesh.indices, indices1);
    assert_eq!(c.layer_spans(), &spans1);
    assert!(!c.layout_changed());

    // A ranged remesh over clean layers changes nothing either.
    c.update_mesh(prairie(), Some((90, 110)));
    assert_eq!(c.mesh.verts, verts1);
    assert_eq!(c.mesh.indices, indices1);
    assert_eq!(c.layer_spans(), &spans1);
    assert!(!c.layout_changed());
}

#[test]
fn layer_spans_cover_the_concatenated_mesh() {
    let mut c = all_air_chunk();
    assert!(c.set_block(100, 8, 8, MaterialType::ROCK));
    assert!(c.set_block(200, 3, 3, MaterialType::DIRT));
    c.update_mesh(prairie(), None);
    let spans = c.layer_spans();
    assert_eq!(spans.len(), CHUNK_Y_SIZE);
    assert_eq!(spans[100].v_len, 24);
    assert_eq!(spans[100].i_len, 36);
    assert_eq!(spans[200].v_len, 24);
    assert_eq!(spans[200].v_start, 24);
    assert_eq!(spans[200].i_start, 36);
    assert_eq!(spans[511].v_start, 48);
    let rebuilt = c.take_rebuilt_layers();
    assert_eq!(rebuilt.len(), CHUNK_Y_SIZE);
    assert_eq!(c.take_rebuilt_layers().len(), 0);
}

#[test]
fn vertex_indices_walk_quads_in_order() {
    let mut c = all_air_chunk();
    assert!(c.set_block(100, 8, 8, MaterialType::ROCK));
    c.update_mesh(prairie(), None);
    let idx = &c.mesh.indices;
    // Quad q spans vertices 4q .. 4q + 4 with the two-triangle pattern.
    for q in 0..6u32 {
        let b = (q * 6) as usize;
        assert_eq!(idx[b], 4 * q);
        assert_eq!(idx[b + 1], 4 * q + 1);
        assert_eq!(idx[b + 2], 4 * q + 2);
        assert_eq!(idx[b + 3], 4 * q + 2);
        assert_eq!(idx[b + 4], 4 * q + 3);
        assert_eq!(idx[b + 5], 4 * q);
    }
}

#[test]
fn stacked_voxels_emit_exactly_ten_quads() {
    let mut c = all_air_chunk();
    assert!(c.set_block(100, 8, 8, MaterialType::ROCK));
    assert!(c.set_block(101, 8, 8, MaterialType::GRASS));
    c.update_mesh(prairie(), None);
    // The shared horizontal face is suppressed on both sides.
    assert_eq!(c.mesh.verts.len(), 40);
    assert_eq!(c.mesh.indices.len(), 60);
}

#[test]
fn depth_adjacent_voxels_emit_exactly_ten_quads() {
    let mut c = all_air_chunk();
    assert!(c.set_block(100, 8, 8, MaterialType::ROCK));
    assert!(c.set_block(100, 8, 9, MaterialType::DIRT));
    c.update_mesh(prairie(), None);
    // The shared face along the depth axis is suppressed on both sides.
    assert_eq!(c.mesh.verts.len(), 40);
    assert_eq!(c.mesh.indices.len(), 60);
}
