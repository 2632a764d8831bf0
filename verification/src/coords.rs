//! Integer coordinate triples for world voxel positions and chunk-space
//! offsets, together with the floor-division helpers that convert between
//! the two coordinate spaces.
use vstd::prelude::*;

verus! {

/// A coordinate triple of integers. Used both for world voxel positions and
/// for chunk-space offsets (the chunk's position in the infinite chunk grid).
#[derive(Copy, Clone, Debug, PartialEq, Eq, Structural)]
pub struct Vec3i {
    pub x: i32,
    pub y: i32,
    pub z: i32,
}

impl Vec3i {
    pub fn new(x: i32, y: i32, z: i32) -> (v: Vec3i)
        ensures
            v == (Vec3i { x, y, z }),
    {
        Vec3i { x, y, z }
    }
}

/// Bound on the absolute value of any world voxel coordinate the library
/// accepts; keeps every derived quantity (chunk offsets, world-space vertex
/// positions, padded indices) comfortably inside `i32`.
pub const WORLD_COORD_LIMIT: i32 = 0x1000000;

/// Bound on the absolute value of any chunk-space offset component; small
/// enough that a chunk's world voxel coordinates stay within
/// `WORLD_COORD_LIMIT`.
pub const OFFSET_LIMIT: i32 = 0xFFFFF;

/// A world position every component of which is within `WORLD_COORD_LIMIT`.
pub open spec fn world_pos_in_range(p: Vec3i) -> bool {
    -WORLD_COORD_LIMIT <= p.x <= WORLD_COORD_LIMIT && -WORLD_COORD_LIMIT <= p.y
        <= WORLD_COORD_LIMIT && -WORLD_COORD_LIMIT <= p.z <= WORLD_COORD_LIMIT
}

/// A chunk offset every component of which is within `OFFSET_LIMIT`.
pub open spec fn offset_in_range(o: Vec3i) -> bool {
    -OFFSET_LIMIT <= o.x <= OFFSET_LIMIT && -OFFSET_LIMIT <= o.y <= OFFSET_LIMIT && -OFFSET_LIMIT
        <= o.z <= OFFSET_LIMIT
}

/// Euclidean floor division: the quotient rounds toward negative infinity,
/// so negative world coordinates map to the correct (negative) chunk.
pub fn div_floor(a: i32, b: i32) -> (q: i32)
    requires
        b > 0,
        -WORLD_COORD_LIMIT <= a <= WORLD_COORD_LIMIT,
    ensures
        q == a as int / b as int,
        -WORLD_COORD_LIMIT <= q <= WORLD_COORD_LIMIT,
{
    proof {
        lemma_quotient_in_coord_range(a as int, b as int);
    }
    let q = a.checked_div_euclid(b);
    q.unwrap()
}

/// The euclidean quotient of a bounded coordinate by a positive divisor
/// stays within the coordinate bound.
proof fn lemma_quotient_in_coord_range(a: int, b: int)
    requires
        b > 0,
        -WORLD_COORD_LIMIT <= a <= WORLD_COORD_LIMIT,
    ensures
        -WORLD_COORD_LIMIT <= a / b <= WORLD_COORD_LIMIT,
{
    vstd::arithmetic::div_mod::lemma_fundamental_div_mod(a, b);
    vstd::arithmetic::div_mod::lemma_mod_bound(a, b);
    let q = a / b;
    let r = a % b;
    assert(-WORLD_COORD_LIMIT <= q <= WORLD_COORD_LIMIT) by (nonlinear_arith)
        requires
            a == b * q + r,
            0 <= r < b,
            b >= 1,
            -WORLD_COORD_LIMIT <= a <= WORLD_COORD_LIMIT,
    ;
}

/// Euclidean remainder, always in `0 .. b`.
pub fn rem_floor(a: i32, b: i32) -> (r: i32)
    requires
        b > 0,
        -WORLD_COORD_LIMIT <= a <= WORLD_COORD_LIMIT,
    ensures
        r == a as int % b as int,
        0 <= r < b,
{
    let r = a.checked_rem_euclid(b);
    r.unwrap()
}

} // verus!
