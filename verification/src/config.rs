//! Plain configuration values consumed by the terrain core and its
//! surroundings: world identity, debug toggles, the player's mode, and
//! the terrain streaming tuning knobs. Loading and validating these from
//! disk is the surrounding application's concern.
use vstd::prelude::*;

verus! {

/// Which world to play: the generation seed and the save-directory name.
#[derive(Debug, Clone)]
pub struct WorldConfig {
    pub seed: u32,
    /// Name of the world (the save folder under the saves directory).
    pub world_name: String,
}

impl Default for WorldConfig {
    fn default() -> (c: WorldConfig)
        ensures
            c.seed == 10,
            c.world_name@ == "default"@,
    {
        WorldConfig { seed: 10, world_name: "default".to_owned() }
    }
}

/// Debug display toggles.
#[derive(Debug, Clone, Copy, PartialEq, Eq, Structural)]
pub struct DebugConfig {
    pub show_overlay: bool,
    pub show_fps: bool,
    pub wireframe: bool,
}

impl Default for DebugConfig {
    fn default() -> (c: DebugConfig)
        ensures
            c == (DebugConfig { show_overlay: true, show_fps: true, wireframe: false }),
    {
        DebugConfig { show_overlay: true, show_fps: true, wireframe: false }
    }
}

/// How the player moves and interacts with the world.
#[derive(Debug, Clone, Copy, PartialEq, Eq, Structural)]
pub enum PlayerMode {
    Adventure,
    Creative,
}

impl Default for PlayerMode {
    fn default() -> (m: PlayerMode)
        ensures
            m == PlayerMode::Adventure,
    {
        PlayerMode::Adventure
    }
}

/// Performance knobs of terrain generation and streaming.
#[derive(Debug, Clone, Copy, PartialEq, Eq, Structural)]
pub struct TerrainTuningConfig {
    /// How many generation jobs may be in flight at once.
    pub jobs_in_flight: usize,
    /// How many dirty chunks to remesh per frame.
    pub dirty_chunks_per_frame: usize,
    /// Minimum starting vertex-buffer capacity of a chunk slot.
    pub min_vertex_cap: usize,
    /// Minimum starting index-buffer capacity of a chunk slot.
    pub min_index_cap: usize,
    /// Water level: generated empty space at or below this height floods.
    pub land_level: usize,
}

impl Default for TerrainTuningConfig {
    fn default() -> (c: TerrainTuningConfig)
        ensures
            c == (TerrainTuningConfig {
                jobs_in_flight: 8usize,
                dirty_chunks_per_frame: 2usize,
                min_vertex_cap: 4096usize,
                min_index_cap: 8192usize,
                land_level: 9usize,
            }),
    {
        TerrainTuningConfig {
            jobs_in_flight: 8,
            dirty_chunks_per_frame: 2,
            min_vertex_cap: 4096,
            min_index_cap: 8192,
            land_level: 9,
        }
    }
}

} // verus!
