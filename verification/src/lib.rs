//! Core of a chunked voxel terrain engine: block and material model, seeded
//! height-field generation, incremental per-layer meshing, spatial chunk
//! management with cross-chunk edit propagation, binary chunk persistence,
//! and the streaming scheduler that keeps a square window of chunks resident
//! around a moving viewer.
use vstd::prelude::*;

pub mod biomes;
pub mod block;
pub mod chunk;
pub mod chunk_manager;
pub mod config;
pub mod coords;
pub mod entity;
pub mod generator;
pub mod icons;
pub mod menu;
pub mod noise;

verus! {

/// Whether the game loop is running or paused.
#[derive(PartialEq, Eq, Structural)]
pub enum GameState {
    PLAYING,
    PAUSED,
}

} // verus!
