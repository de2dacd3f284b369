//! The unit-box mesh the single BLAS is built from.

use vstd::prelude::*;

use crate::math::IVec3;
use crate::world::Vertex3D;

verus! {

/// A corner of the unit box around `c`, one half-voxel away on each axis.
pub open spec fn corner(c: IVec3, dx: int, dy: int, dz: int) -> Vertex3D {
    Vertex3D {
        position_halves: IVec3 {
            x: (c.x + dx) as i32,
            y: (c.y + dy) as i32,
            z: (c.z + dz) as i32,
        },
    }
}

/// The 36 vertices of the unit box around `c` — two triangles for each of
/// its six faces, every coordinate half a voxel from the center.
pub open spec fn box_vertices(c: IVec3) -> Seq<Vertex3D> {
    seq![
        // left face
        corner(c, -1, -1, -1),
        corner(c, -1, -1, 1),
        corner(c, -1, 1, 1),
        corner(c, -1, -1, -1),
        corner(c, -1, 1, -1),
        corner(c, -1, 1, 1),
        // right face
        corner(c, 1, -1, -1),
        corner(c, 1, -1, 1),
        corner(c, 1, 1, 1),
        corner(c, 1, -1, -1),
        corner(c, 1, 1, -1),
        corner(c, 1, 1, 1),
        // bottom face
        corner(c, -1, -1, -1),
        corner(c, 1, -1, -1),
        corner(c, 1, -1, 1),
        corner(c, -1, -1, -1),
        corner(c, -1, -1, 1),
        corner(c, 1, -1, 1),
        // top face
        corner(c, -1, 1, -1),
        corner(c, 1, 1, -1),
        corner(c, 1, 1, 1),
        corner(c, -1, 1, -1),
        corner(c, -1, 1, 1),
        corner(c, 1, 1, 1),
        // back face
        corner(c, -1, -1, 1),
        corner(c, 1, -1, 1),
        corner(c, 1, 1, 1),
        corner(c, -1, -1, 1),
        corner(c, -1, 1, 1),
        corner(c, 1, 1, 1),
        // front face
        corner(c, -1, -1, -1),
        corner(c, 1, -1, -1),
        corner(c, 1, 1, -1),
        corner(c, -1, -1, -1),
        corner(c, -1, 1, -1),
        corner(c, 1, 1, -1),
    ]
}

/// The triangle mesh of the unit box centered at `position`, in
/// half-voxel units: 36 vertices, two triangles per face.
pub fn triangles_from_box(position: IVec3) -> (r: Vec<Vertex3D>)
    requires
        -0x4000_0000 < position.x < 0x4000_0000,
        -0x4000_0000 < position.y < 0x4000_0000,
        -0x4000_0000 < position.z < 0x4000_0000,
    ensures
        r@ == box_vertices(position),
        r@.len() == 36,
{
    let IVec3 { x, y, z } = position;
    let mut out: Vec<Vertex3D> = Vec::new();
    // left face
    out.push(Vertex3D { position_halves: IVec3 { x: x - 1, y: y - 1, z: z - 1 } });
    out.push(Vertex3D { position_halves: IVec3 { x: x - 1, y: y - 1, z: z + 1 } });
    out.push(Vertex3D { position_halves: IVec3 { x: x - 1, y: y + 1, z: z + 1 } });
    out.push(Vertex3D { position_halves: IVec3 { x: x - 1, y: y - 1, z: z - 1 } });
    out.push(Vertex3D { position_halves: IVec3 { x: x - 1, y: y + 1, z: z - 1 } });
    out.push(Vertex3D { position_halves: IVec3 { x: x - 1, y: y + 1, z: z + 1 } });
    // right face
    out.push(Vertex3D { position_halves: IVec3 { x: x + 1, y: y - 1, z: z - 1 } });
    out.push(Vertex3D { position_halves: IVec3 { x: x + 1, y: y - 1, z: z + 1 } });
    out.push(Vertex3D { position_halves: IVec3 { x: x + 1, y: y + 1, z: z + 1 } });
    out.push(Vertex3D { position_halves: IVec3 { x: x + 1, y: y - 1, z: z - 1 } });
    out.push(Vertex3D { position_halves: IVec3 { x: x + 1, y: y + 1, z: z - 1 } });
    out.push(Vertex3D { position_halves: IVec3 { x: x + 1, y: y + 1, z: z + 1 } });
    // bottom face
    out.push(Vertex3D { position_halves: IVec3 { x: x - 1, y: y - 1, z: z - 1 } });
    out.push(Vertex3D { position_halves: IVec3 { x: x + 1, y: y - 1, z: z - 1 } });
    out.push(Vertex3D { position_halves: IVec3 { x: x + 1, y: y - 1, z: z + 1 } });
    out.push(Vertex3D { position_halves: IVec3 { x: x - 1, y: y - 1, z: z - 1 } });
    out.push(Vertex3D { position_halves: IVec3 { x: x - 1, y: y - 1, z: z + 1 } });
    out.push(Vertex3D { position_halves: IVec3 { x: x + 1, y: y - 1, z: z + 1 } });
    // top face
    out.push(Vertex3D { position_halves: IVec3 { x: x - 1, y: y + 1, z: z - 1 } });
    out.push(Vertex3D { position_halves: IVec3 { x: x + 1, y: y + 1, z: z - 1 } });
    out.push(Vertex3D { position_halves: IVec3 { x: x + 1, y: y + 1, z: z + 1 } });
    out.push(Vertex3D { position_halves: IVec3 { x: x - 1, y: y + 1, z: z - 1 } });
    out.push(Vertex3D { position_halves: IVec3 { x: x - 1, y: y + 1, z: z + 1 } });
    out.push(Vertex3D { position_halves: IVec3 { x: x + 1, y: y + 1, z: z + 1 } });
    // back face
    out.push(Vertex3D { position_halves: IVec3 { x: x - 1, y: y - 1, z: z + 1 } });
    out.push(Vertex3D { position_halves: IVec3 { x: x + 1, y: y - 1, z: z + 1 } });
    out.push(Vertex3D { position_halves: IVec3 { x: x + 1, y: y + 1, z: z + 1 } });
    out.push(Vertex3D { position_halves: IVec3 { x: x - 1, y: y - 1, z: z + 1 } });
    out.push(Vertex3D { position_halves: IVec3 { x: x - 1, y: y + 1, z: z + 1 } });
    out.push(Vertex3D { position_halves: IVec3 { x: x + 1, y: y + 1, z: z + 1 } });
    // front face
    out.push(Vertex3D { position_halves: IVec3 { x: x - 1, y: y - 1, z: z - 1 } });
    out.push(Vertex3D { position_halves: IVec3 { x: x + 1, y: y - 1, z: z - 1 } });
    out.push(Vertex3D { position_halves: IVec3 { x: x + 1, y: y + 1, z: z - 1 } });
    out.push(Vertex3D { position_halves: IVec3 { x: x - 1, y: y - 1, z: z - 1 } });
    out.push(Vertex3D { position_halves: IVec3 { x: x - 1, y: y + 1, z: z - 1 } });
    out.push(Vertex3D { position_halves: IVec3 { x: x + 1, y: y + 1, z: z - 1 } });
    proof {
        assert(out@ =~= box_vertices(position));
    }
    out
}

} // verus!
