//! The voxel world: per-voxel payloads, chunks, and the chunked spatial
//! index that the instance arrays are generated from.

use vstd::prelude::*;

use crate::math::IVec3;

pub mod chunk;
pub mod voxel;

verus! {

/// One voxel edge is 1/16 of a meter; scales are therefore stored as a
/// whole number of sixteenths, so that a scale of one voxel is `SCALE_ONE`.
pub const SCALE_ONE: u32 = 16;

/// Per-cell payload owned by exactly one chunk: the edge length of the
/// cell's box in sixteenths of a voxel, and an index into the material
/// palette.
#[derive(Clone, Copy, Debug, Default, PartialEq, Eq, Structural)]
pub struct HostVoxel {
    pub scale_sixteenths: u32,
    pub material_index: u32,
}

/// A triangle-mesh vertex, with coordinates in half-voxel units — the
/// unit box's corners sit half a voxel from its center.
#[derive(Clone, Copy, Debug, PartialEq, Eq, Structural)]
pub struct Vertex3D {
    pub position_halves: IVec3,
}

/// What a chunk's debug outline signals; the display layer picks each
/// status's color.
#[derive(Clone, Copy, Debug, PartialEq, Eq, Structural)]
pub enum ChunkStatus {
    Empty,
    Visible,
    Hidden,
}

/// A debug-line vertex, with coordinates in half-voxel units and the
/// status that colors it.
#[derive(Clone, Copy, Debug, PartialEq, Eq, Structural)]
pub struct Vertex3DColor {
    pub position_halves: IVec3,
    pub status: ChunkStatus,
}

} // verus!
