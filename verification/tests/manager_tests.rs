use terracore::block::MaterialType;
use terracore::chunk::Chunk;
use terracore::chunk_manager::ChunkManager;
use terracore::coords::Vec3i;

/// A manager with chunks resident at the given offsets, slot i at
/// offsets[i].
fn manager_with(offsets: &[Vec3i]) -> ChunkManager {
    let mut m = ChunkManager::new();
    for (i, off) in offsets.iter().enumerate() {
        m.add_chunk(Chunk::new(Vec3i::new(0, 0, 0)));
        m.update_chunk_offset(i, *off);
    }
    m
}

#[test]
fn lookup_finds_mapped_offsets_only() {
    let m = manager_with(&[Vec3i::new(0, 0, 0), Vec3i::new(1, 0, 0)]);
    assert_eq!(m.get_chunk_index_by_offset(&Vec3i::new(0, 0, 0)), Some(0));
    assert_eq!(m.get_chunk_index_by_offset(&Vec3i::new(1, 0, 0)), Some(1));
    assert_eq!(m.get_chunk_index_by_offset(&Vec3i::new(2, 0, 0)), None);
    assert!(m.get_chunk(0).is_some());
    assert!(m.get_chunk(2).is_none());
}

#[test]
fn remapping_an_offset_unmaps_the_previous_holder() {
    let mut m = manager_with(&[Vec3i::new(0, 0, 0), Vec3i::new(1, 0, 0)]);
    m.update_chunk_offset(1, Vec3i::new(0, 0, 0));
    assert_eq!(m.get_chunk_index_by_offset(&Vec3i::new(0, 0, 0)), Some(1));
    assert_eq!(m.get_chunk_index_by_offset(&Vec3i::new(1, 0, 0)), None);
    m.remove_chunk_from_map(1);
    assert_eq!(m.get_chunk_index_by_offset(&Vec3i::new(0, 0, 0)), None);
}

#[test]
fn set_then_get_returns_the_written_material() {
    let mut m = manager_with(&[Vec3i::new(0, 0, 0)]);
    let p = Vec3i::new(5, 100, 7);
    let touched = m.set_block_material(p, MaterialType::ROCK);
    assert_eq!(touched, vec![0]);
    assert_eq!(m.get_block_material(p), Some(MaterialType::ROCK));
    // Setting air is immediately visible too, before any remesh.
    let touched = m.set_block_material(p, MaterialType::AIR);
    assert_eq!(touched, vec![0]);
    assert_eq!(m.get_block_material(p), Some(MaterialType::AIR));
}

#[test]
fn edit_without_resident_chunk_is_a_no_op() {
    let mut m = manager_with(&[Vec3i::new(0, 0, 0)]);
    let far = Vec3i::new(1000, 5, 1000);
    assert_eq!(m.set_block_material(far, MaterialType::ROCK), vec![]);
    assert_eq!(m.get_block_material(far), None);
}

#[test]
fn border_edit_updates_the_neighbours_padding() {
    let mut m = manager_with(&[Vec3i::new(0, 0, 0), Vec3i::new(1, 0, 0)]);
    // World x = 16 has local x = 0 inside chunk (1,0,0): on the border
    // toward chunk (0,0,0).
    let p = Vec3i::new(16, 40, 7);
    let touched = m.set_block_material(p, MaterialType::GRASS);
    // The owner (slot 1) first, then the propagated neighbour (slot 0).
    assert_eq!(touched, vec![1, 0]);
    // Queried through the owner's interior voxel.
    let owner = m.get_chunk(1).unwrap();
    assert_eq!(owner.get_block(40, 1, 8), Some(MaterialType::GRASS));
    // Queried through the neighbour's padding voxel mirroring the same
    // world position: the same material.
    let neighbor = m.get_chunk(0).unwrap();
    assert_eq!(neighbor.get_block(40, 17, 8), Some(MaterialType::GRASS));
    // Both chunks now need saving and want a remesh.
    assert!(m.get_chunk(1).unwrap().needs_save);
    assert!(m.get_chunk(0).unwrap().needs_save);
    assert!(m.get_chunk(1).unwrap().dirty);
    assert!(m.get_chunk(0).unwrap().dirty);
    assert_eq!(m.get_chunk(1).unwrap().dirty_y_range(), Some((39, 41)));
    assert_eq!(m.get_chunk(0).unwrap().dirty_y_range(), Some((39, 41)));
    // The world-coordinate read agrees with both.
    assert_eq!(m.get_block_material(p), Some(MaterialType::GRASS));
}

#[test]
fn corner_edit_touches_both_neighbours() {
    let mut m = manager_with(&[
        Vec3i::new(0, 0, 0),
        Vec3i::new(1, 0, 0),
        Vec3i::new(1, 0, -1),
    ]);
    // Local x = 0 and local z = 0 of chunk (1,0,0).
    let p = Vec3i::new(16, 10, 0);
    let touched = m.set_block_material(p, MaterialType::DIRT);
    // Owner, x-neighbour (0,0,0), then z-neighbour (1,0,-1).
    assert_eq!(touched, vec![1, 0, 2]);
}

#[test]
fn negative_coordinates_wrap_to_the_right_chunk() {
    let mut m = manager_with(&[Vec3i::new(-1, 0, -1)]);
    let p = Vec3i::new(-3, 25, -11);
    let touched = m.set_block_material(p, MaterialType::WATER);
    assert_eq!(touched, vec![0]);
    assert_eq!(m.get_block_material(p), Some(MaterialType::WATER));
    // Local coordinates inside the owner: euclidean remainders.
    let c = m.get_chunk(0).unwrap();
    assert_eq!(c.get_block(25, 14, 6), Some(MaterialType::WATER));
}
