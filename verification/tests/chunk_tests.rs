use terracore::biomes::BiomeParameters;
use terracore::block::{Block, MaterialType};
use terracore::chunk::{
    material_from_u8, material_to_u8, Chunk, CHUNK_AREA_WITH_PADDING, CHUNK_Y_SIZE,
    TOTAL_CHUNK_SIZE,
};
use terracore::coords::Vec3i;
use terracore::noise::NoiseGenerator;

fn prairie() -> BiomeParameters {
    BiomeParameters {
        base_height: 10,
        amplitude: 6,
        frequency: 32,
    }
}

#[test]
fn new_chunk_has_debug_floor_under_air() {
    let c = Chunk::new(Vec3i::new(0, 0, 0));
    assert_eq!(c.blocks.len(), TOTAL_CHUNK_SIZE);
    assert_eq!(c.get_block(0, 0, 0), Some(MaterialType::DEBUG));
    assert_eq!(c.get_block(12, 9, 9), Some(MaterialType::DEBUG));
    assert_eq!(c.get_block(13, 9, 9), Some(MaterialType::AIR));
    assert_eq!(c.get_block(511, 17, 17), Some(MaterialType::AIR));
    assert!(!c.dirty);
    assert!(!c.needs_save);
}

#[test]
fn get_block_out_of_bounds_is_none() {
    let c = Chunk::new(Vec3i::new(0, 0, 0));
    assert_eq!(c.get_block(CHUNK_Y_SIZE, 0, 0), None);
    assert_eq!(c.get_block(0, CHUNK_AREA_WITH_PADDING, 0), None);
    assert_eq!(c.get_block(0, 0, CHUNK_AREA_WITH_PADDING), None);
}

#[test]
fn set_block_writes_and_rejects_out_of_bounds() {
    let mut c = Chunk::new(Vec3i::new(0, 0, 0));
    assert!(c.set_block(100, 3, 4, MaterialType::ROCK));
    assert_eq!(c.get_block(100, 3, 4), Some(MaterialType::ROCK));
    assert!(!c.set_block(CHUNK_Y_SIZE, 3, 4, MaterialType::ROCK));
}

#[test]
fn generation_is_deterministic() {
    let noise = NoiseGenerator::new(1234);
    let biome = prairie();
    let offset = Vec3i::new(3, 0, -2);
    let mut a = Chunk::new(Vec3i::new(0, 0, 0));
    let mut b = Chunk::new(Vec3i::new(5, 0, 5));
    // Give the second chunk different starting content.
    b.set_block(200, 4, 4, MaterialType::WATER);
    a.update_blocks(offset, &noise, &biome, 9);
    b.update_blocks(offset, &noise, &biome, 9);
    assert_eq!(a.blocks, b.blocks);
}

#[test]
fn generation_layers_follow_the_height_rules() {
    let noise = NoiseGenerator::new(77);
    let biome = prairie();
    let mut c = Chunk::new(Vec3i::new(0, 0, 0));
    c.update_blocks(Vec3i::new(0, 0, 0), &noise, &biome, 9);
    // Everything above the biome's reachable band is air.
    assert_eq!(c.get_block(17, 5, 5), Some(MaterialType::AIR));
    assert_eq!(c.get_block(300, 1, 1), Some(MaterialType::AIR));
    // Everything well below the base is dirt.
    assert_eq!(c.get_block(0, 5, 5), Some(MaterialType::DIRT));
    assert_eq!(c.get_block(8, 5, 5), Some(MaterialType::DIRT));
    // Each column has exactly one grass voxel at its surface inside the
    // band, with dirt below it and water or air above it.
    for x in 0..CHUNK_AREA_WITH_PADDING {
        for z in 0..CHUNK_AREA_WITH_PADDING {
            let mut grass_count = 0;
            let mut surface = 0;
            for y in 4..=16 {
                if c.get_block(y, x, z) == Some(MaterialType::GRASS) {
                    grass_count += 1;
                    surface = y;
                }
            }
            assert_eq!(grass_count, 1, "one surface voxel per column");
            assert_eq!(c.get_block(surface - 1, x, z), Some(MaterialType::DIRT));
            let above = c.get_block(surface + 1, x, z).unwrap();
            if surface + 1 <= 9 {
                assert_eq!(above, MaterialType::WATER);
            } else {
                assert_eq!(above, MaterialType::AIR);
            }
        }
    }
    // Generation marks the whole chunk dirty but does not require a save.
    assert!(c.dirty);
    assert!(!c.needs_save);
    assert_eq!(c.dirty_y_range(), Some((0, CHUNK_Y_SIZE - 1)));
}

#[test]
fn material_bytes_round_trip() {
    let mats = [
        MaterialType::DIRT,
        MaterialType::GRASS,
        MaterialType::ROCK,
        MaterialType::WATER,
        MaterialType::AIR,
        MaterialType::DEBUG,
    ];
    for (i, m) in mats.iter().enumerate() {
        assert_eq!(material_to_u8(*m), i as u8);
        assert_eq!(material_from_u8(i as u8), *m);
    }
    // Unknown bytes decode to air.
    assert_eq!(material_from_u8(200), MaterialType::AIR);
}

#[test]
fn save_then_load_restores_the_material_array() {
    let noise = NoiseGenerator::new(9);
    let biome = prairie();
    let offset = Vec3i::new(1, 0, 1);
    let mut c = Chunk::new(Vec3i::new(0, 0, 0));
    c.update_blocks(offset, &noise, &biome, 9);
    let data = c.save_bytes();
    assert_eq!(data.len(), TOTAL_CHUNK_SIZE);

    let mut d = Chunk::new(Vec3i::new(7, 0, 7));
    let r = d.load_bytes(&data, offset);
    assert!(r.is_ok());
    assert_eq!(d.blocks, c.blocks);
    assert_eq!(d.offset, offset);
    assert!(!d.dirty);
    assert!(!d.needs_save);
}

#[test]
fn truncated_file_is_rejected_without_mutation() {
    let noise = NoiseGenerator::new(9);
    let biome = prairie();
    let mut c = Chunk::new(Vec3i::new(0, 0, 0));
    c.update_blocks(Vec3i::new(0, 0, 0), &noise, &biome, 9);
    let before: Vec<Block> = c.blocks.clone();
    let before_offset = c.offset;

    let mut truncated = c.save_bytes();
    truncated.truncate(100);
    let r = c.load_bytes(&truncated, Vec3i::new(2, 0, 2));
    assert!(r.is_err());
    assert_eq!(c.blocks, before);
    assert_eq!(c.offset, before_offset);
}
