use terracore::block::{quad_vertex, Block, Direction, MaterialType, Quad};
use terracore::config::{DebugConfig, PlayerMode, TerrainTuningConfig, WorldConfig};
use terracore::entity::Entity;
use terracore::icons::IconType;
use terracore::menu::{MenuAction, MenuPage};
use terracore::noise::NoiseGenerator;
use terracore::GameState;

#[test]
fn transparency_splits_materials_into_solid_and_not() {
    assert!(MaterialType::AIR.is_transparent());
    assert!(MaterialType::WATER.is_transparent());
    assert!(!MaterialType::DIRT.is_transparent());
    assert!(!MaterialType::GRASS.is_transparent());
    assert!(!MaterialType::ROCK.is_transparent());
    assert!(!MaterialType::DEBUG.is_transparent());

    let b = Block::new(MaterialType::WATER);
    assert!(b.is_transparent());
    assert!(!b.is_solid());
    let mut b2 = Block::default();
    assert_eq!(b2.material_type, MaterialType::AIR);
    b2.update(MaterialType::ROCK);
    assert!(b2.is_solid());
}

#[test]
fn quad_vertices_sit_on_the_voxel_corners() {
    let v = quad_vertex(
        [0, 1, 0],
        MaterialType::GRASS,
        [0, 0],
        [10, 20, 30],
        Direction::TOP,
    );
    assert_eq!(v.pos, [10, 21, 30]);
    // Grass top tile at atlas column 0, row 0.
    assert_eq!(v.texture_coordinates, [0, 0]);

    let q = Quad::new(MaterialType::DIRT, Direction::TOP, [0, 0, 0]);
    assert_eq!(q.vertices.len(), 4);
    // All four corners lie on the voxel's top face.
    for v in q.vertices.iter() {
        assert_eq!(v.pos[1], 1);
        assert!(v.pos[0] == 0 || v.pos[0] == 1);
        assert!(v.pos[2] == 0 || v.pos[2] == 1);
    }
    // Dirt samples tile (2, 0): pixels 32..47 horizontally.
    assert_eq!(q.vertices[0].texture_coordinates, [32, 0]);
    assert_eq!(q.vertices[2].texture_coordinates, [47, 16]);
    assert_eq!(q.get_indices(0), [0, 1, 2, 2, 3, 0]);
    assert_eq!(q.get_indices(2), [8, 9, 10, 10, 11, 8]);
    assert_eq!(q.get_indices_v(7), [7, 8, 9, 9, 10, 7]);
}

#[test]
fn direction_steps_are_unit_vectors() {
    let dirs = [
        Direction::TOP,
        Direction::BOTTOM,
        Direction::RIGHT,
        Direction::LEFT,
        Direction::FRONT,
        Direction::BACK,
    ];
    for d in dirs.iter() {
        let v = d.to_vec();
        assert_eq!(v.x.abs() + v.y.abs() + v.z.abs(), 1);
    }
}

#[test]
fn noise_is_deterministic_and_bounded() {
    let g = NoiseGenerator::new(2024);
    let h1 = g.get_height(123, -456, 32, 6);
    let h2 = g.get_height(123, -456, 32, 6);
    assert_eq!(h1, h2);
    for x in -40..40 {
        let h = g.get_height(x * 7, x * 13, 32, 6);
        assert!((-6..=6).contains(&h));
    }
    // Neighbouring samples inside one lattice cell move slowly.
    let a = g.get_height(100, 100, 32, 6);
    let b = g.get_height(101, 100, 32, 6);
    assert!((a - b).abs() <= 1);
}

#[test]
fn icon_ring_cycles_and_maps_to_materials() {
    let all = IconType::all();
    assert_eq!(all.len(), 5);
    for icon in all.iter() {
        assert_eq!(icon.next().prev(), *icon);
        assert_eq!(icon.prev().next(), *icon);
        assert_eq!(IconType::from_material(icon.to_material()), Some(*icon));
    }
    assert_eq!(IconType::ROCK.next(), IconType::GRASS);
    assert_eq!(IconType::ROCK.prev(), IconType::DEBUG);
    assert_eq!(IconType::from_material(MaterialType::AIR), None);
}

#[test]
fn defaults_match_the_documented_values() {
    let w = WorldConfig::default();
    assert_eq!(w.seed, 10);
    assert_eq!(w.world_name, "default");
    let d = DebugConfig::default();
    assert!(d.show_overlay && d.show_fps && !d.wireframe);
    assert_eq!(PlayerMode::default(), PlayerMode::Adventure);
    let t = TerrainTuningConfig::default();
    assert_eq!(t.jobs_in_flight, 8);
    assert_eq!(t.dirty_chunks_per_frame, 2);
    assert_eq!(t.min_vertex_cap, 4096);
    assert_eq!(t.min_index_cap, 8192);
    assert_eq!(t.land_level, 9);
}

#[test]
fn small_model_types_behave_like_plain_values() {
    let e = Entity::new(42);
    assert_eq!(e.id(), 42);
    assert_eq!(Entity::new(42), e);
    assert!(GameState::PLAYING == GameState::PLAYING);
    assert!(GameState::PLAYING != GameState::PAUSED);
    assert_eq!(MenuPage::Main, MenuPage::Main);
    assert_ne!(MenuAction::Resume, MenuAction::Quit);
}
