//! The voxel material model and face-quad geometry: which materials are
//! solid, which texture-atlas tile each face samples, and the four vertices
//! and six indices a visible face contributes to a chunk mesh.
//!
//! Vertices carry integer world coordinates and integer texture coordinates
//! in atlas pixels (a 16x16 tile grid on a 256-pixel atlas); the rendering
//! layer divides by the atlas size when it uploads.
use vstd::prelude::*;

use crate::coords::Vec3i;

verus! {

/// The material tag of one voxel. `AIR` and `WATER` count as transparent
/// (non-solid); all other materials are solid. Persisted as a single byte.
#[derive(Copy, Clone, Debug, PartialEq, Eq, Structural)]
#[allow(non_camel_case_types)]
pub enum MaterialType {
    DIRT,
    GRASS,
    ROCK,
    WATER,
    AIR,
    DEBUG,
}

impl MaterialType {
    /// Transparent materials: `AIR` and `WATER`.
    pub open spec fn spec_is_transparent(self) -> bool {
        self == MaterialType::AIR || self == MaterialType::WATER
    }

    pub fn is_transparent(&self) -> (r: bool)
        ensures
            r == self.spec_is_transparent(),
    {
        match self {
            MaterialType::AIR => true,
            MaterialType::WATER => true,
            _ => false,
        }
    }
}

/// A single voxel: nothing but its material tag.
#[derive(Copy, Clone, Debug, PartialEq, Eq, Structural)]
pub struct Block {
    pub material_type: MaterialType,
}

impl Block {
    pub fn new(material_type: MaterialType) -> (b: Block)
        ensures
            b == (Block { material_type }),
    {
        Block { material_type }
    }

    /// Transparent blocks: `AIR` and `WATER`.
    pub fn is_transparent(&self) -> (r: bool)
        ensures
            r == self.material_type.spec_is_transparent(),
    {
        self.material_type.is_transparent()
    }

    /// Solid blocks: everything that is not transparent.
    pub fn is_solid(&self) -> (r: bool)
        ensures
            r == !self.material_type.spec_is_transparent(),
    {
        !self.is_transparent()
    }

    pub fn update(&mut self, new_material_type: MaterialType)
        ensures
            *final(self) == (Block { material_type: new_material_type }),
    {
        self.material_type = new_material_type;
    }
}

impl Default for Block {
    fn default() -> (b: Block)
        ensures
            b == (Block { material_type: MaterialType::AIR }),
    {
        Block { material_type: MaterialType::AIR }
    }
}

/// One of the six axis-aligned face directions of a voxel.
#[derive(Copy, Clone, Debug, PartialEq, Eq, Structural)]
#[allow(non_camel_case_types)]
pub enum Direction {
    TOP,
    BOTTOM,
    RIGHT,
    LEFT,
    FRONT,
    BACK,
}

impl Direction {
    /// The fixed iteration order of the six directions during meshing.
    pub open spec fn spec_from_index(d: int) -> Direction {
        if d == 0 {
            Direction::TOP
        } else if d == 1 {
            Direction::BOTTOM
        } else if d == 2 {
            Direction::RIGHT
        } else if d == 3 {
            Direction::LEFT
        } else if d == 4 {
            Direction::FRONT
        } else {
            Direction::BACK
        }
    }

    /// The direction at position `d` of the fixed iteration order
    /// TOP, BOTTOM, RIGHT, LEFT, FRONT, BACK.
    pub fn from_index(d: usize) -> (r: Direction)
        requires
            d < 6,
        ensures
            r == Direction::spec_from_index(d as int),
    {
        if d == 0 {
            Direction::TOP
        } else if d == 1 {
            Direction::BOTTOM
        } else if d == 2 {
            Direction::RIGHT
        } else if d == 3 {
            Direction::LEFT
        } else if d == 4 {
            Direction::FRONT
        } else {
            Direction::BACK
        }
    }

    /// The unit step toward the neighbouring voxel this face looks at.
    pub open spec fn spec_to_vec(self) -> Vec3i {
        match self {
            Direction::TOP => Vec3i { x: 0, y: 1, z: 0 },
            Direction::BOTTOM => Vec3i { x: 0, y: -1i32, z: 0 },
            Direction::RIGHT => Vec3i { x: 1, y: 0, z: 0 },
            Direction::LEFT => Vec3i { x: -1i32, y: 0, z: 0 },
            Direction::FRONT => Vec3i { x: 0, y: 0, z: 1 },
            Direction::BACK => Vec3i { x: 0, y: 0, z: -1i32 },
        }
    }

    pub fn to_vec(self) -> (v: Vec3i)
        ensures
            v == self.spec_to_vec(),
    {
        match self {
            Direction::TOP => Vec3i { x: 0, y: 1, z: 0 },
            Direction::BOTTOM => Vec3i { x: 0, y: -1, z: 0 },
            Direction::RIGHT => Vec3i { x: 1, y: 0, z: 0 },
            Direction::LEFT => Vec3i { x: -1, y: 0, z: 0 },
            Direction::FRONT => Vec3i { x: 0, y: 0, z: 1 },
            Direction::BACK => Vec3i { x: 0, y: 0, z: -1 },
        }
    }
}

/// One mesh vertex: a corner of a face quad, at integer world coordinates,
/// with its texture coordinate in atlas pixels.
#[derive(Copy, Clone, Debug, PartialEq)]
pub struct BlockVertex {
    pub pos: [i32; 3],
    pub texture_coordinates: [u32; 2],
}

/// Atlas tiles are 16 pixels wide on the canonical 256-pixel atlas.
pub const TILE_SIZE_PX: u32 = 16;

impl MaterialType {
    /// The atlas tile (column, row) a face of this material samples.
    /// Grass uses a distinct top and bottom tile; every other material is
    /// uniform across its faces.
    pub open spec fn spec_tile(self, quad_side: Direction) -> (u32, u32) {
        match self {
            MaterialType::GRASS => match quad_side {
                Direction::TOP => (0u32, 0u32),
                Direction::BOTTOM => (2u32, 0u32),
                _ => (3u32, 0u32),
            },
            MaterialType::DIRT => (2u32, 0u32),
            MaterialType::ROCK => (0u32, 1u32),
            MaterialType::WATER => (13u32, 0u32),
            MaterialType::AIR => (0u32, 0u32),
            MaterialType::DEBUG => (5u32, 0u32),
        }
    }

    /// The texture coordinate, in atlas pixels, of one corner of a face
    /// quad. `texture_corner` selects the corner: 0 keeps the tile's
    /// minimum edge, 1 moves to the far edge (one pixel short horizontally,
    /// so that sampling stays inside the tile).
    pub open spec fn spec_texture_coordinates(
        self,
        texture_corner: [u32; 2],
        quad_side: Direction,
    ) -> [u32; 2] {
        if self == MaterialType::AIR {
            [0u32, 0u32]
        } else {
            let tile = self.spec_tile(quad_side);
            let px = tile.0 * TILE_SIZE_PX + if texture_corner[0] == 1 {
                (TILE_SIZE_PX - 1) as u32
            } else {
                0u32
            };
            let py = tile.1 * TILE_SIZE_PX + if texture_corner[1] == 1 {
                TILE_SIZE_PX
            } else {
                0u32
            };
            [px as u32, py as u32]
        }
    }

    pub fn get_texture_coordinates(&self, texture_corner: [u32; 2], quad_side: Direction) -> (r:
        [u32; 2])
        ensures
            r == self.spec_texture_coordinates(texture_corner, quad_side),
    {
        if *self == MaterialType::AIR {
            return [0, 0];
        }
        let (tx, ty): (u32, u32) = match self {
            MaterialType::GRASS => match quad_side {
                Direction::TOP => (0, 0),
                Direction::BOTTOM => (2, 0),
                _ => (3, 0),
            },
            MaterialType::DIRT => (2, 0),
            MaterialType::ROCK => (0, 1),
            MaterialType::WATER => (13, 0),
            MaterialType::AIR => (0, 0),
            MaterialType::DEBUG => (5, 0),
        };
        let px = tx * TILE_SIZE_PX + if texture_corner[0] == 1 {
            TILE_SIZE_PX - 1
        } else {
            0
        };
        let py = ty * TILE_SIZE_PX + if texture_corner[1] == 1 {
            TILE_SIZE_PX
        } else {
            0
        };
        [px, py]
    }
}

/// A world position component small enough that adding a unit corner
/// offset cannot overflow.
pub open spec fn vertex_pos_in_range(position: [i32; 3]) -> bool {
    forall|k: int|
        0 <= k < 3 ==> -crate::coords::WORLD_COORD_LIMIT <= #[trigger] position[k]
            <= crate::coords::WORLD_COORD_LIMIT
}

/// One corner vertex of a face quad: the unit corner offset added to the
/// voxel's world position, with the corner's texture coordinate.
pub open spec fn spec_quad_vertex(
    pos: [i8; 3],
    material_type: MaterialType,
    texture_corners: [u32; 2],
    position: [i32; 3],
    quad_side: Direction,
) -> BlockVertex {
    BlockVertex {
        pos: [
            (position[0] + pos[0]) as i32,
            (position[1] + pos[1]) as i32,
            (position[2] + pos[2]) as i32,
        ],
        texture_coordinates: material_type.spec_texture_coordinates(texture_corners, quad_side),
    }
}

pub fn quad_vertex(
    pos: [i8; 3],
    material_type: MaterialType,
    texture_corners: [u32; 2],
    position: [i32; 3],
    quad_side: Direction,
) -> (v: BlockVertex)
    requires
        vertex_pos_in_range(position),
        forall|k: int| 0 <= k < 3 ==> 0 <= #[trigger] pos[k] <= 1,
    ensures
        v == spec_quad_vertex(pos, material_type, texture_corners, position, quad_side),
{
    let tc = material_type.get_texture_coordinates(texture_corners, quad_side);
    let v = BlockVertex {
        pos: [
            position[0] + pos[0] as i32,
            position[1] + pos[1] as i32,
            position[2] + pos[2] as i32,
        ],
        texture_coordinates: tc,
    };
    assert(v.pos =~= spec_quad_vertex(
        pos,
        material_type,
        texture_corners,
        position,
        quad_side,
    ).pos);
    v
}

/// The unit corner offset of vertex `k` (0..4) of a face in direction
/// `side`, in the standard counter-clockwise winding.
pub open spec fn spec_corner_pos(side: Direction, k: int) -> [i8; 3] {
    match side {
        Direction::TOP => if k == 0 {
            [0i8, 1i8, 0i8]
        } else if k == 1 {
            [0i8, 1i8, 1i8]
        } else if k == 2 {
            [1i8, 1i8, 1i8]
        } else {
            [1i8, 1i8, 0i8]
        },
        Direction::BOTTOM => if k == 0 {
            [0i8, 0i8, 1i8]
        } else if k == 1 {
            [0i8, 0i8, 0i8]
        } else if k == 2 {
            [1i8, 0i8, 0i8]
        } else {
            [1i8, 0i8, 1i8]
        },
        Direction::RIGHT => if k == 0 {
            [1i8, 1i8, 1i8]
        } else if k == 1 {
            [1i8, 0i8, 1i8]
        } else if k == 2 {
            [1i8, 0i8, 0i8]
        } else {
            [1i8, 1i8, 0i8]
        },
        Direction::LEFT => if k == 0 {
            [0i8, 1i8, 0i8]
        } else if k == 1 {
            [0i8, 0i8, 0i8]
        } else if k == 2 {
            [0i8, 0i8, 1i8]
        } else {
            [0i8, 1i8, 1i8]
        },
        Direction::FRONT => if k == 0 {
            [0i8, 1i8, 1i8]
        } else if k == 1 {
            [0i8, 0i8, 1i8]
        } else if k == 2 {
            [1i8, 0i8, 1i8]
        } else {
            [1i8, 1i8, 1i8]
        },
        Direction::BACK => if k == 0 {
            [1i8, 1i8, 0i8]
        } else if k == 1 {
            [1i8, 0i8, 0i8]
        } else if k == 2 {
            [0i8, 0i8, 0i8]
        } else {
            [0i8, 1i8, 0i8]
        },
    }
}

/// The texture corner of vertex `k` (0..4) of a face: the four corners of
/// the tile in winding order, identical for every direction.
pub open spec fn spec_corner_tex(k: int) -> [u32; 2] {
    if k == 0 {
        [0u32, 0u32]
    } else if k == 1 {
        [0u32, 1u32]
    } else if k == 2 {
        [1u32, 1u32]
    } else {
        [1u32, 0u32]
    }
}

/// The four vertices a visible face of material `m` at world position
/// `position` contributes, in winding order.
pub open spec fn spec_face_vertices(m: MaterialType, side: Direction, position: [i32; 3]) -> Seq<
    BlockVertex,
> {
    Seq::new(4, |k: int| spec_quad_vertex(spec_corner_pos(side, k), m, spec_corner_tex(k), position, side))
}

impl Direction {
    pub fn get_vertices(self, material_type: MaterialType, position: [i32; 3]) -> (r:
        [BlockVertex; 4])
        requires
            vertex_pos_in_range(position),
        ensures
            r@ == spec_face_vertices(material_type, self, position),
    {
        let v0 = quad_vertex(corner_pos_at(self, 0), material_type, [0, 0], position, self);
        let v1 = quad_vertex(corner_pos_at(self, 1), material_type, [0, 1], position, self);
        let v2 = quad_vertex(corner_pos_at(self, 2), material_type, [1, 1], position, self);
        let v3 = quad_vertex(corner_pos_at(self, 3), material_type, [1, 0], position, self);
        let r = [v0, v1, v2, v3];
        proof {
            assert(r@ =~= spec_face_vertices(material_type, self, position));
        }
        r
    }
}

/// The unit corner offset table, as executable code.
fn corner_pos_at(side: Direction, k: usize) -> (r: [i8; 3])
    requires
        k < 4,
    ensures
        r == spec_corner_pos(side, k as int),
        forall|j: int| 0 <= j < 3 ==> 0 <= #[trigger] r[j] <= 1,
{
    let r = match side {
        Direction::TOP => if k == 0 {
            [0, 1, 0]
        } else if k == 1 {
            [0, 1, 1]
        } else if k == 2 {
            [1, 1, 1]
        } else {
            [1, 1, 0]
        },
        Direction::BOTTOM => if k == 0 {
            [0, 0, 1]
        } else if k == 1 {
            [0, 0, 0]
        } else if k == 2 {
            [1, 0, 0]
        } else {
            [1, 0, 1]
        },
        Direction::RIGHT => if k == 0 {
            [1, 1, 1]
        } else if k == 1 {
            [1, 0, 1]
        } else if k == 2 {
            [1, 0, 0]
        } else {
            [1, 1, 0]
        },
        Direction::LEFT => if k == 0 {
            [0, 1, 0]
        } else if k == 1 {
            [0, 0, 0]
        } else if k == 2 {
            [0, 0, 1]
        } else {
            [0, 1, 1]
        },
        Direction::FRONT => if k == 0 {
            [0, 1, 1]
        } else if k == 1 {
            [0, 0, 1]
        } else if k == 2 {
            [1, 0, 1]
        } else {
            [1, 1, 1]
        },
        Direction::BACK => if k == 0 {
            [1, 1, 0]
        } else if k == 1 {
            [1, 0, 0]
        } else if k == 2 {
            [0, 0, 0]
        } else {
            [0, 1, 0]
        },
    };
    proof {
        assert(forall|j: int| 0 <= j < 3 ==> 0 <= #[trigger] r[j] <= 1) by {
            assert(r[0] == 0 || r[0] == 1);
            assert(r[1] == 0 || r[1] == 1);
            assert(r[2] == 0 || r[2] == 1);
        }
    }
    r
}

/// One visible face of a voxel: its four vertices and the direction it
/// faces.
#[derive(Copy, Clone, Debug)]
pub struct Quad {
    pub vertices: [BlockVertex; 4],
    pub side: Direction,
}

/// The six indices of quad number `i` in a mesh: two counter-clockwise
/// triangles over that quad's four vertices.
pub open spec fn spec_quad_indices(i: int) -> Seq<u32> {
    seq![
        (4 * i) as u32,
        (4 * i + 1) as u32,
        (4 * i + 2) as u32,
        (4 * i + 2) as u32,
        (4 * i + 3) as u32,
        (4 * i) as u32,
    ]
}

/// Quad counts stay below this bound everywhere in the library, so the
/// derived vertex indices fit comfortably in `u32`.
pub const MAX_QUADS: u32 = 0x1000000;

impl Quad {
    pub fn new(material_type: MaterialType, quad_side: Direction, position: [i32; 3]) -> (q: Quad)
        requires
            vertex_pos_in_range(position),
        ensures
            q.vertices@ == spec_face_vertices(material_type, quad_side, position),
            q.side == quad_side,
    {
        Quad { vertices: quad_side.get_vertices(material_type, position), side: quad_side }
    }

    /// The index pattern of one quad whose first vertex sits at
    /// `vertex_offset` in the vertex stream.
    pub fn get_indices_v(&self, vertex_offset: u32) -> (r: [u32; 6])
        requires
            vertex_offset + 3 <= u32::MAX,
        ensures
            r@ == seq![
                vertex_offset,
                (vertex_offset + 1) as u32,
                (vertex_offset + 2) as u32,
                (vertex_offset + 2) as u32,
                (vertex_offset + 3) as u32,
                vertex_offset,
            ],
    {
        let r = [
            vertex_offset,
            vertex_offset + 1,
            vertex_offset + 2,
            vertex_offset + 2,
            vertex_offset + 3,
            vertex_offset,
        ];
        proof {
            assert(r@ =~= seq![
                vertex_offset,
                (vertex_offset + 1) as u32,
                (vertex_offset + 2) as u32,
                (vertex_offset + 2) as u32,
                (vertex_offset + 3) as u32,
                vertex_offset,
            ]);
        }
        r
    }

    /// The index pattern of quad number `i` in a mesh.
    pub fn get_indices(&self, i: u32) -> (r: [u32; 6])
        requires
            i < MAX_QUADS,
        ensures
            r@ == spec_quad_indices(i as int),
    {
        let displacement = i * 4;
        let r = [
            displacement,
            1 + displacement,
            2 + displacement,
            2 + displacement,
            3 + displacement,
            displacement,
        ];
        proof {
            assert(r@ =~= spec_quad_indices(i as int));
        }
        r
    }
}

} // verus!
