//! Deterministic seeded height-field sampler: integer lattice value noise.
//!
//! The plane is divided into square lattice cells of `frequency` voxels.
//! Every lattice point gets a pseudo-random value in `0 ..= 2 * amplitude`
//! derived only from the seed and the point's coordinates, and a sample
//! bilinearly interpolates the four surrounding lattice values, shifted to
//! `-amplitude ..= amplitude`. The same seed and inputs give the same
//! output on every run, which keeps regeneration equivalent to reloading
//! from disk.
use vstd::prelude::*;

use crate::coords::{div_floor, rem_floor, WORLD_COORD_LIMIT};

verus! {

/// Largest lattice period (in voxels) the sampler accepts.
pub const MAX_FREQUENCY: u32 = 1024;

/// Largest height amplitude the sampler accepts.
pub const MAX_AMPLITUDE: u32 = 255;

/// Bias added to a lattice coordinate before hashing so the hashed value
/// is a plain non-negative number.
pub const LATTICE_BIAS: i64 = 0x40000000;

/// A 32-bit integer mix in the style of common avalanche hashes.
pub open spec fn spec_mix(x: u32) -> u32 {
    let a = x ^ (x >> 16);
    let b = a.wrapping_mul(0x7feb352d);
    let c = b ^ (b >> 15);
    let d = c.wrapping_mul(0x846ca68b);
    d ^ (d >> 16)
}

fn mix(x: u32) -> (r: u32)
    ensures
        r == spec_mix(x),
{
    let a = x ^ (x >> 16);
    let b = a.wrapping_mul(0x7feb352d);
    let c = b ^ (b >> 15);
    let d = c.wrapping_mul(0x846ca68b);
    d ^ (d >> 16)
}

/// The pseudo-random value of lattice point `(cx, cz)` under `seed`,
/// in `0 ..= 2 * amplitude`.
pub open spec fn spec_lattice_value(seed: u32, cx: int, cz: int, amplitude: int) -> int {
    let ux = (cx + LATTICE_BIAS) as u32;
    let uz = (cz + LATTICE_BIAS) as u32;
    let h = spec_mix(spec_mix(ux ^ seed) ^ spec_mix(uz ^ seed.wrapping_mul(0x9e3779b9)));
    h as int % (2 * amplitude + 1)
}

/// The interpolated height variation at world column `(wx, wz)`:
/// bilinear interpolation of the four surrounding lattice values, in
/// `-amplitude ..= amplitude`.
pub open spec fn spec_height(seed: u32, wx: int, wz: int, frequency: int, amplitude: int) -> int {
    let p = frequency;
    let cx = wx / p;
    let fx = wx % p;
    let cz = wz / p;
    let fz = wz % p;
    let v00 = spec_lattice_value(seed, cx, cz, amplitude);
    let v10 = spec_lattice_value(seed, cx + 1, cz, amplitude);
    let v01 = spec_lattice_value(seed, cx, cz + 1, amplitude);
    let v11 = spec_lattice_value(seed, cx + 1, cz + 1, amplitude);
    let num = (v00 * (p - fx) + v10 * fx) * (p - fz) + (v01 * (p - fx) + v11 * fx) * fz;
    num / (p * p) - amplitude
}

/// Deterministic seeded 2D height sampler.
#[derive(Copy, Clone, Debug)]
pub struct NoiseGenerator {
    pub seed: u32,
}

impl NoiseGenerator {
    pub fn new(seed: u32) -> (g: NoiseGenerator)
        ensures
            g.seed == seed,
    {
        NoiseGenerator { seed }
    }

    /// The lattice value as executable code.
    fn lattice_value(&self, cx: i32, cz: i32, amplitude: u32) -> (v: u32)
        requires
            -WORLD_COORD_LIMIT - 2 <= cx <= WORLD_COORD_LIMIT + 2,
            -WORLD_COORD_LIMIT - 2 <= cz <= WORLD_COORD_LIMIT + 2,
            1 <= amplitude <= MAX_AMPLITUDE,
        ensures
            v == spec_lattice_value(self.seed, cx as int, cz as int, amplitude as int),
            v <= 2 * amplitude,
    {
        let bx = cx as i64 + LATTICE_BIAS;
        let bz = cz as i64 + LATTICE_BIAS;
        let ux = bx as u32;
        let uz = bz as u32;
        assert(ux == (cx as int + LATTICE_BIAS) as u32);
        assert(uz == (cz as int + LATTICE_BIAS) as u32);
        let h = mix(mix(ux ^ self.seed) ^ mix(uz ^ self.seed.wrapping_mul(0x9e3779b9)));
        let m = 2 * amplitude + 1;
        let v = h % m;
        v
    }

    /// Sample the height variation of world column `(world_x, world_z)`.
    /// Pure in all its inputs: equal seeds and arguments always give equal
    /// results.
    #[verifier::rlimit(40)]
    pub fn get_height(&self, world_x: i32, world_z: i32, frequency: u32, amplitude: u32) -> (h:
        i32)
        requires
            -WORLD_COORD_LIMIT <= world_x <= WORLD_COORD_LIMIT,
            -WORLD_COORD_LIMIT <= world_z <= WORLD_COORD_LIMIT,
            1 <= frequency <= MAX_FREQUENCY,
            1 <= amplitude <= MAX_AMPLITUDE,
        ensures
            h == spec_height(self.seed, world_x as int, world_z as int, frequency as int, amplitude as int),
            -(amplitude as int) <= h <= amplitude as int,
    {
        let p = frequency as i32;
        let cx = div_floor(world_x, p);
        let fx = rem_floor(world_x, p);
        let cz = div_floor(world_z, p);
        let fz = rem_floor(world_z, p);
        let v00 = self.lattice_value(cx, cz, amplitude) as u64;
        let v10 = self.lattice_value(cx + 1, cz, amplitude) as u64;
        let v01 = self.lattice_value(cx, cz + 1, amplitude) as u64;
        let v11 = self.lattice_value(cx + 1, cz + 1, amplitude) as u64;
        let pw = p as u64;
        let fxw = fx as u64;
        let fzw = fz as u64;
        proof {
            assert(v00 * (pw - fxw) <= 510 * 1024 && v10 * fxw <= 510 * 1024 && v01 * (pw - fxw)
                <= 510 * 1024 && v11 * fxw <= 510 * 1024) by (nonlinear_arith)
                requires
                    v00 <= 510,
                    v10 <= 510,
                    v01 <= 510,
                    v11 <= 510,
                    0 <= fxw < pw,
                    pw <= 1024,
            ;
        }
        let row0 = v00 * (pw - fxw) + v10 * fxw;
        let row1 = v01 * (pw - fxw) + v11 * fxw;
        proof {
            assert(row0 * (pw - fzw) <= 1044480 * 1024 && row1 * fzw <= 1044480 * 1024)
                by (nonlinear_arith)
                requires
                    row0 <= 1044480,
                    row1 <= 1044480,
                    0 <= fzw < pw,
                    pw <= 1024,
            ;
        }
        let num = row0 * (pw - fzw) + row1 * fzw;
        proof {
            assert(1 <= pw * pw <= 1024 * 1024) by (nonlinear_arith)
                requires
                    1 <= pw <= 1024,
            ;
            lemma_bilinear_bounds(
                v00 as int,
                v10 as int,
                v01 as int,
                v11 as int,
                pw as int,
                fxw as int,
                fzw as int,
                amplitude as int,
            );
        }
        let q = num / (pw * pw);
        assert(q <= 2 * amplitude);
        let h = q as i32 - amplitude as i32;
        h
    }
}

/// Bounds for the bilinear interpolation: with all four lattice values in
/// `0 ..= 2a` and both fractional offsets in `0 .. p`, the weighted sum
/// stays in `0 ..= 2a * p * p`, so its quotient by `p * p` stays in
/// `0 ..= 2a`.
proof fn lemma_bilinear_bounds(
    v00: int,
    v10: int,
    v01: int,
    v11: int,
    p: int,
    fx: int,
    fz: int,
    a: int,
)
    requires
        0 <= v00 <= 2 * a,
        0 <= v10 <= 2 * a,
        0 <= v01 <= 2 * a,
        0 <= v11 <= 2 * a,
        1 <= p,
        0 <= fx < p,
        0 <= fz < p,
        1 <= a,
    ensures
        0 <= (v00 * (p - fx) + v10 * fx) * (p - fz) + (v01 * (p - fx) + v11 * fx) * fz <= 2 * a * p
            * p,
        0 <= ((v00 * (p - fx) + v10 * fx) * (p - fz) + (v01 * (p - fx) + v11 * fx) * fz) / (p * p)
            <= 2 * a,
{
    let row0 = v00 * (p - fx) + v10 * fx;
    let row1 = v01 * (p - fx) + v11 * fx;
    let num = row0 * (p - fz) + row1 * fz;
    assert(0 <= row0 <= 2 * a * p) by (nonlinear_arith)
        requires
            row0 == v00 * (p - fx) + v10 * fx,
            0 <= v00 <= 2 * a,
            0 <= v10 <= 2 * a,
            1 <= p,
            0 <= fx < p,
            1 <= a,
    ;
    assert(0 <= row1 <= 2 * a * p) by (nonlinear_arith)
        requires
            row1 == v01 * (p - fx) + v11 * fx,
            0 <= v01 <= 2 * a,
            0 <= v11 <= 2 * a,
            1 <= p,
            0 <= fx < p,
            1 <= a,
    ;
    assert(0 <= num <= 2 * a * p * p) by (nonlinear_arith)
        requires
            num == row0 * (p - fz) + row1 * fz,
            0 <= row0 <= 2 * a * p,
            0 <= row1 <= 2 * a * p,
            1 <= p,
            0 <= fz < p,
            1 <= a,
    ;
    assert(p * p >= 1) by (nonlinear_arith)
        requires
            1 <= p,
    ;
    vstd::arithmetic::div_mod::lemma_div_is_ordered(0, num, p * p);
    vstd::arithmetic::div_mod::lemma_div_is_ordered(num, 2 * a * p * p, p * p);
    assert(2 * a * p * p == (2 * a) * (p * p)) by (nonlinear_arith);
    vstd::arithmetic::div_mod::lemma_div_multiples_vanish(2 * a, p * p);
}

} // verus!
