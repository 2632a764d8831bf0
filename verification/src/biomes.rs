//! Named bundles of generation constants. A biome fixes the base terrain
//! height, the maximum height variation around it, and the horizontal
//! scale (lattice period) of the variation.
use vstd::prelude::*;

use crate::chunk::CHUNK_Y_SIZE;
use crate::noise::{MAX_AMPLITUDE, MAX_FREQUENCY};

verus! {

/// Tunable constants of one generation profile. Immutable once built.
#[derive(Copy, Clone, Debug, PartialEq, Eq, Structural)]
pub struct BiomeParameters {
    /// Ground level the height variation moves around, in voxels.
    pub base_height: u32,
    /// Maximum absolute height variation, in voxels.
    pub amplitude: u32,
    /// Horizontal scale of the variation: the noise lattice period, in
    /// voxels.
    pub frequency: u32,
}

impl BiomeParameters {
    /// The ranges every biome must keep to: the reachable height band
    /// stays inside the chunk and the noise sampler's own limits hold.
    pub open spec fn wf(self) -> bool {
        &&& 1 <= self.base_height
        &&& 1 <= self.amplitude <= MAX_AMPLITUDE
        &&& self.base_height + self.amplitude < CHUNK_Y_SIZE
        &&& 1 <= self.frequency <= MAX_FREQUENCY
    }

    /// Runtime check of the same ranges `wf` states.
    pub fn is_valid(&self) -> (r: bool)
        ensures
            r == self.wf(),
    {
        1 <= self.base_height && 1 <= self.amplitude && self.amplitude <= MAX_AMPLITUDE
            && (self.base_height as u64) + (self.amplitude as u64) < CHUNK_Y_SIZE as u64 && 1
            <= self.frequency && self.frequency <= MAX_FREQUENCY
    }
}

/// The prairie profile: gentle hills a few voxels high around a low base.
pub fn prairie_params() -> (b: BiomeParameters)
    ensures
        b == (BiomeParameters { base_height: 10u32, amplitude: 6u32, frequency: 32u32 }),
        b.wf(),
{
    BiomeParameters { base_height: 10, amplitude: 6, frequency: 32 }
}

} // verus!
