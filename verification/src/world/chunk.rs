//! Chunks and the chunked spatial voxel index.
//!
//! A `Chunk` owns a sparse mapping from local coordinate (each axis below
//! `CHUNK_WIDTH`) to voxel payload, together with a visibility flag.
//! `Chunks` owns the world: a sparse collection of chunks addressed by
//! chunk-grid coordinate, with a deterministic transform between global
//! coordinates and (chunk, local) pairs.

use std::collections::HashMap;

use vstd::prelude::*;

use crate::math::{isqrt, pow2_u32, trunc_div, IVec3, UVec3};
use crate::rt::acceleration_structure::{pack_index_mask, pack_index_mask_exec, InstanceRecord};
use crate::world::{ChunkStatus, HostVoxel, Vertex3DColor};
use vstd::arithmetic::power2::pow2;

verus! {

broadcast use vstd::std_specs::hash::group_hash_axioms;

/// The number of voxels per chunk dimension.
pub const CHUNK_WIDTH: u32 = 64;

/// The number of chunks along the world's X axis, on each side of the origin.
pub const WORLD_WIDTH: i32 = 64;

/// The number of chunks along the world's Y axis, on each side of the origin.
pub const WORLD_HEIGHT: i32 = 64;

/// The number of chunks along the world's Z axis, on each side of the origin.
pub const WORLD_DEPTH: i32 = 64;

/// An open interval of coordinates.
pub struct Bounds(pub i32, pub i32);

impl Bounds {
    pub fn inside(&self, value: i32) -> (r: bool)
        ensures
            r == (self.0 < value && value < self.1),
    {
        value > self.0 && value < self.1
    }
}

/// A local coordinate lies inside one chunk.
pub open spec fn in_chunk_bounds(p: UVec3) -> bool {
    p.x < CHUNK_WIDTH && p.y < CHUNK_WIDTH && p.z < CHUNK_WIDTH
}

/// The key a local coordinate hashes under; injective on in-chunk
/// coordinates.
pub open spec fn local_key(p: UVec3) -> u64 {
    (p.x + p.y * 64 + p.z * 4096) as u64
}

proof fn lemma_local_key_injective(p: UVec3, q: UVec3)
    requires
        in_chunk_bounds(p),
        in_chunk_bounds(q),
        local_key(p) == local_key(q),
    ensures
        p == q,
{
    assert(p.x == q.x && p.y == q.y && p.z == q.z) by (nonlinear_arith)
        requires
            p.x < 64 && p.y < 64 && p.z < 64,
            q.x < 64 && q.y < 64 && q.z < 64,
            p.x + p.y * 64 + p.z * 4096 == q.x + q.y * 64 + q.z * 4096,
    ;
}

fn local_key_exec(p: &UVec3) -> (r: u64)
    ensures
        r == local_key(*p),
{
    (p.x as u64) + (p.y as u64) * 64 + (p.z as u64) * 4096
}

/// Some entry of `s` sits at position `p`.
pub open spec fn has_pos(s: Seq<(UVec3, HostVoxel)>, p: UVec3) -> bool {
    exists|i: int| 0 <= i < s.len() && s[i].0 == p
}

/// The payload of the entry of `s` at position `p`.
pub open spec fn payload_at(s: Seq<(UVec3, HostVoxel)>, p: UVec3) -> HostVoxel {
    let i = choose|i: int| 0 <= i < s.len() && s[i].0 == p;
    s[i].1
}

/// A chunk: a visibility flag and a sparse map from local coordinate to
/// voxel payload. Entries are also kept as a vector in insertion order,
/// which fixes the order instances are emitted in.
pub struct Chunk {
    visible: bool,
    entries: Vec<(UVec3, HostVoxel)>,
    index: HashMap<u64, HostVoxel>,
}

impl Chunk {
    /// The chunk's voxels, as (local position, payload) pairs in
    /// insertion order.
    pub closed spec fn entries(&self) -> Seq<(UVec3, HostVoxel)> {
        self.entries@
    }

    /// The chunk's visibility flag.
    pub closed spec fn visible_spec(&self) -> bool {
        self.visible
    }

    /// Well-formed: positions are distinct, in chunk bounds, and the hash
    /// index mirrors the entry vector exactly.
    pub closed spec fn wf(&self) -> bool {
        &&& pos_distinct(self.entries@)
        &&& forall|i: int|
            0 <= i < self.entries@.len() ==> in_chunk_bounds(#[trigger] self.entries@[i].0)
        &&& forall|i: int|
            0 <= i < self.entries@.len() ==> {
                &&& self.index@.contains_key(#[trigger] local_key(self.entries@[i].0))
                &&& self.index@[local_key(self.entries@[i].0)] == self.entries@[i].1
            }
        &&& forall|k: u64|
            self.index@.contains_key(k) ==> exists|i: int|
                0 <= i < self.entries@.len() && local_key(#[trigger] self.entries@[i].0) == k
    }

    /// How many voxels the chunk holds.
    pub fn len(&self) -> (r: usize)
        ensures
            r == self.entries().len(),
    {
        self.entries.len()
    }

    pub fn set_visible(&mut self, value: bool)
        ensures
            final(self).visible_spec() == value,
            final(self).entries() == old(self).entries(),
            old(self).wf() ==> final(self).wf(),
    {
        self.visible = value;
    }

    pub fn empty(&self) -> (r: bool)
        ensures
            r == (self.entries().len() == 0),
    {
        self.entries.len() == 0
    }

    pub fn visible(&self) -> (r: bool)
        ensures
            r == self.visible_spec(),
    {
        self.visible
    }

    pub fn contains(&self, position: &UVec3) -> (r: bool)
        requires
            self.wf(),
        ensures
            r == has_pos(self.entries(), *position),
    {
        if position.x >= CHUNK_WIDTH || position.y >= CHUNK_WIDTH || position.z >= CHUNK_WIDTH {
            proof {
                if has_pos(self.entries@, *position) {
                    let i = choose|i: int|
                        0 <= i < self.entries@.len() && self.entries@[i].0 == *position;
                    assert(in_chunk_bounds(self.entries@[i].0));
                }
            }
            return false;
        }
        let key = local_key_exec(position);
        let r = self.index.contains_key(&key);
        proof {
            if r {
                let i = choose|i: int|
                    0 <= i < self.entries@.len() && local_key(self.entries@[i].0) == key;
                lemma_local_key_injective(self.entries@[i].0, *position);
            } else {
                if has_pos(self.entries@, *position) {
                    let i = choose|i: int|
                        0 <= i < self.entries@.len() && self.entries@[i].0 == *position;
                    assert(self.index@.contains_key(local_key(self.entries@[i].0)));
                }
            }
        }
        r
    }

    /// Look a voxel up by its local coordinate.
    pub fn get(&self, position: &UVec3) -> (r: Option<&HostVoxel>)
        requires
            self.wf(),
        ensures
            match r {
                Some(v) => has_pos(self.entries(), *position) && *v == payload_at(
                    self.entries(),
                    *position,
                ),
                None => !has_pos(self.entries(), *position),
            },
    {
        if position.x >= CHUNK_WIDTH || position.y >= CHUNK_WIDTH || position.z >= CHUNK_WIDTH {
            proof {
                if has_pos(self.entries@, *position) {
                    let i = choose|i: int|
                        0 <= i < self.entries@.len() && self.entries@[i].0 == *position;
                    assert(in_chunk_bounds(self.entries@[i].0));
                }
            }
            return None;
        }
        let key = local_key_exec(position);
        let r = self.index.get(&key);
        proof {
            if r is Some {
                let i = choose|i: int|
                    0 <= i < self.entries@.len() && local_key(self.entries@[i].0) == key;
                lemma_local_key_injective(self.entries@[i].0, *position);
                let j = choose|j: int|
                    0 <= j < self.entries@.len() && self.entries@[j].0 == *position;
                if i != j {
                    assert(self.entries@[i].0 != self.entries@[j].0);
                }
            } else {
                if has_pos(self.entries@, *position) {
                    let i = choose|i: int|
                        0 <= i < self.entries@.len() && self.entries@[i].0 == *position;
                    assert(self.index@.contains_key(local_key(self.entries@[i].0)));
                }
            }
        }
        r
    }

    /// Insert a voxel at a local coordinate. Fails, leaving the chunk
    /// unchanged, when the coordinate is already occupied; a coordinate
    /// outside the chunk is a caller error.
    pub fn insert(&mut self, position: UVec3, voxel: HostVoxel) -> (r: bool)
        requires
            old(self).wf(),
            in_chunk_bounds(position),
        ensures
            final(self).wf(),
            final(self).visible_spec() == old(self).visible_spec(),
            has_pos(old(self).entries(), position) ==> !r && final(self).entries() == old(
                self,
            ).entries(),
            !has_pos(old(self).entries(), position) ==> r && final(self).entries() == old(
                self,
            ).entries().push((position, voxel)),
    {
        let key = local_key_exec(&position);
        if self.index.contains_key(&key) {
            proof {
                let i = choose|i: int|
                    0 <= i < self.entries@.len() && local_key(self.entries@[i].0) == key;
                lemma_local_key_injective(self.entries@[i].0, position);
            }
            return false;
        }
        self.index.insert(key, voxel);
        self.entries.push((position, voxel));
        proof {
            let s_old = old(self).entries@;
            let s_new = self.entries@;
            let n = s_old.len() as int;
            assert(s_new =~= s_old.push((position, voxel)));
            assert(s_new[n] == (position, voxel));
            assert forall|i: int, j: int|
                0 <= i < j < s_new.len() implies s_new[i].0 != s_new[j].0 by {
                if j == n {
                    if s_new[i].0 == position {
                        assert(s_old[i].0 == position);
                    }
                }
            }
            assert forall|i: int|
                0 <= i < s_new.len() implies {
                    &&& self.index@.contains_key(#[trigger] local_key(s_new[i].0))
                    &&& self.index@[local_key(s_new[i].0)] == s_new[i].1
                } by {
                if i < n {
                    assert(old(self).index@.contains_key(local_key(s_old[i].0)));
                    if local_key(s_new[i].0) == key {
                        lemma_local_key_injective(s_new[i].0, position);
                        assert(s_old[i].0 == position);
                        assert(false);
                    }
                }
            }
            assert forall|k: u64| self.index@.contains_key(k) implies exists|i: int|
                0 <= i < s_new.len() && local_key(#[trigger] s_new[i].0) == k by {
                if k == key {
                    assert(local_key(s_new[n].0) == k);
                } else {
                    assert(old(self).index@.contains_key(k));
                    let i = choose|i: int|
                        0 <= i < s_old.len() && local_key(#[trigger] s_old[i].0) == k;
                    assert(local_key(s_new[i].0) == k);
                }
            }
        }
        true
    }

    /// The chunk's bounding-box outline for debug drawing, colored by its
    /// status: the 24 endpoints of its 12 edges, in half-voxel units.
    pub fn debug_lines(&self, grid_position: IVec3) -> (r: Vec<Vertex3DColor>)
        requires
            in_grid_bounds(grid_position),
        ensures
            r@ == chunk_outline(grid_position, chunk_status(*self)),
    {
        let status = if self.empty() {
            ChunkStatus::Empty
        } else if self.visible() {
            ChunkStatus::Visible
        } else {
            ChunkStatus::Hidden
        };

        let bx = 128 * grid_position.x - 1;
        let by = 128 * grid_position.y - 1;
        let bz = 128 * grid_position.z - 1;
        let tx = bx + 128;
        let ty = by + 128;
        let tz = bz + 128;

        let mut out: Vec<Vertex3DColor> = Vec::new();
        // bottom
        out.push(Vertex3DColor { position_halves: IVec3 { x: bx, y: by, z: bz }, status });
        out.push(Vertex3DColor { position_halves: IVec3 { x: bx, y: by, z: tz }, status });
        out.push(Vertex3DColor { position_halves: IVec3 { x: bx, y: by, z: tz }, status });
        out.push(Vertex3DColor { position_halves: IVec3 { x: tx, y: by, z: tz }, status });
        out.push(Vertex3DColor { position_halves: IVec3 { x: tx, y: by, z: tz }, status });
        out.push(Vertex3DColor { position_halves: IVec3 { x: tx, y: by, z: bz }, status });
        out.push(Vertex3DColor { position_halves: IVec3 { x: tx, y: by, z: bz }, status });
        out.push(Vertex3DColor { position_halves: IVec3 { x: bx, y: by, z: bz }, status });
        // top
        out.push(Vertex3DColor { position_halves: IVec3 { x: bx, y: ty, z: bz }, status });
        out.push(Vertex3DColor { position_halves: IVec3 { x: bx, y: ty, z: tz }, status });
        out.push(Vertex3DColor { position_halves: IVec3 { x: bx, y: ty, z: tz }, status });
        out.push(Vertex3DColor { position_halves: IVec3 { x: tx, y: ty, z: tz }, status });
        out.push(Vertex3DColor { position_halves: IVec3 { x: tx, y: ty, z: tz }, status });
        out.push(Vertex3DColor { position_halves: IVec3 { x: tx, y: ty, z: bz }, status });
        out.push(Vertex3DColor { position_halves: IVec3 { x: tx, y: ty, z: bz }, status });
        out.push(Vertex3DColor { position_halves: IVec3 { x: bx, y: ty, z: bz }, status });
        // sides
        out.push(Vertex3DColor { position_halves: IVec3 { x: bx, y: by, z: bz }, status });
        out.push(Vertex3DColor { position_halves: IVec3 { x: bx, y: ty, z: bz }, status });
        out.push(Vertex3DColor { position_halves: IVec3 { x: bx, y: by, z: tz }, status });
        out.push(Vertex3DColor { position_halves: IVec3 { x: bx, y: ty, z: tz }, status });
        out.push(Vertex3DColor { position_halves: IVec3 { x: tx, y: by, z: bz }, status });
        out.push(Vertex3DColor { position_halves: IVec3 { x: tx, y: ty, z: bz }, status });
        out.push(Vertex3DColor { position_halves: IVec3 { x: tx, y: by, z: tz }, status });
        out.push(Vertex3DColor { position_halves: IVec3 { x: tx, y: ty, z: tz }, status });
        proof {
            assert(out@ =~= chunk_outline(grid_position, chunk_status(*self)));
        }
        out
    }

    /// The instance records this chunk's voxels contribute at a level of
    /// detail, in entry order: one record per voxel whose local
    /// coordinates are all multiples of the LOD stride.
    pub fn to_instances(
        &self,
        lod: u32,
        grid_position: IVec3,
        acceleration_structure_reference: u64,
    ) -> (r: Vec<InstanceRecord>)
        requires
            self.wf(),
            lod < 32,
            in_grid_bounds(grid_position),
        ensures
            r@ == chunk_records(
                self.entries(),
                self.visible_spec(),
                lod,
                grid_position,
                acceleration_structure_reference,
            ),
    {
        let stride = pow2_u32(lod);
        let offset = lod_offset_halves_exec(lod);
        let mask: u32 = if self.visible {
            0xFF
        } else {
            0x00
        };
        proof {
            assert(lod_offset_halves(lod) <= 465) by (nonlinear_arith)
                requires
                    lod < 32,
            ;
        }
        let mut out: Vec<InstanceRecord> = Vec::new();
        let mut i: usize = 0;
        while i < self.entries.len()
            invariant
                i <= self.entries@.len(),
                self.wf(),
                lod < 32,
                in_grid_bounds(grid_position),
                stride == pow2(lod as nat),
                stride >= 1,
                offset == lod_offset_halves(lod),
                offset <= 465,
                mask == if self.visible_spec() {
                    0xFFu32
                } else {
                    0x00u32
                },
                out@ == chunk_records(
                    self.entries@.take(i as int),
                    self.visible_spec(),
                    lod,
                    grid_position,
                    acceleration_structure_reference,
                ),
            decreases self.entries@.len() - i,
        {
            let (p, v) = self.entries[i];
            assert(in_chunk_bounds(p));
            if p.x % stride == 0 && p.y % stride == 0 && p.z % stride == 0 {
                proof {
                    assert((v.scale_sixteenths as int) * (stride as int) <= 0xFFFF_FFFF_FFFF_FFFF)
                        by (nonlinear_arith)
                        requires
                            v.scale_sixteenths <= 0xFFFF_FFFF,
                            stride <= 0xFFFF_FFFF,
                    ;
                }
                let record = InstanceRecord {
                    acceleration_structure_reference,
                    instance_custom_index_and_mask: pack_index_mask_exec(v.material_index, mask),
                    translation_halves: IVec3 {
                        x: 2 * (64 * grid_position.x + p.x as i32) + offset as i32,
                        y: 2 * (64 * grid_position.y + p.y as i32) + offset as i32,
                        z: 2 * (64 * grid_position.z + p.z as i32) + offset as i32,
                    },
                    scale_sixteenths: (v.scale_sixteenths as u64) * (stride as u64),
                };
                out.push(record);
            }
            proof {
                assert(self.entries@.take(i + 1).drop_last() =~= self.entries@.take(i as int));
                assert(self.entries@.take(i + 1).last() == self.entries@[i as int]);
            }
            i = i + 1;
        }
        proof {
            assert(self.entries@.take(self.entries@.len() as int) =~= self.entries@);
        }
        out
    }
}

/// The status a chunk's outline is drawn with.
pub open spec fn chunk_status(c: Chunk) -> ChunkStatus {
    if c.entries().len() == 0 {
        ChunkStatus::Empty
    } else if c.visible_spec() {
        ChunkStatus::Visible
    } else {
        ChunkStatus::Hidden
    }
}

/// A corner of a chunk's bounding box in half-voxel units: the box spans
/// one chunk width starting half a voxel before the chunk's origin, and
/// `cx`, `cy`, `cz` choose the low (0) or high (1) end of each axis.
pub open spec fn outline_corner(grid: IVec3, cx: int, cy: int, cz: int, status: ChunkStatus)
    -> Vertex3DColor {
    Vertex3DColor {
        position_halves: IVec3 {
            x: (128 * grid.x - 1 + 128 * cx) as i32,
            y: (128 * grid.y - 1 + 128 * cy) as i32,
            z: (128 * grid.z - 1 + 128 * cz) as i32,
        },
        status,
    }
}

/// The 24 line-segment endpoints of a chunk's bounding-box outline: the
/// four bottom edges, the four top edges, and the four vertical edges.
pub open spec fn chunk_outline(grid: IVec3, status: ChunkStatus) -> Seq<Vertex3DColor> {
    seq![
        // bottom
        outline_corner(grid, 0, 0, 0, status),
        outline_corner(grid, 0, 0, 1, status),
        outline_corner(grid, 0, 0, 1, status),
        outline_corner(grid, 1, 0, 1, status),
        outline_corner(grid, 1, 0, 1, status),
        outline_corner(grid, 1, 0, 0, status),
        outline_corner(grid, 1, 0, 0, status),
        outline_corner(grid, 0, 0, 0, status),
        // top
        outline_corner(grid, 0, 1, 0, status),
        outline_corner(grid, 0, 1, 1, status),
        outline_corner(grid, 0, 1, 1, status),
        outline_corner(grid, 1, 1, 1, status),
        outline_corner(grid, 1, 1, 1, status),
        outline_corner(grid, 1, 1, 0, status),
        outline_corner(grid, 1, 1, 0, status),
        outline_corner(grid, 0, 1, 0, status),
        // sides
        outline_corner(grid, 0, 0, 0, status),
        outline_corner(grid, 0, 1, 0, status),
        outline_corner(grid, 0, 0, 1, status),
        outline_corner(grid, 0, 1, 1, status),
        outline_corner(grid, 1, 0, 0, status),
        outline_corner(grid, 1, 1, 0, status),
        outline_corner(grid, 1, 0, 1, status),
        outline_corner(grid, 1, 1, 1, status),
    ]
}

/// The outlines of all non-empty chunks of `s`, in storage order.
pub open spec fn world_outlines(s: Seq<(IVec3, Chunk)>) -> Seq<Vertex3DColor>
    decreases s.len(),
{
    if s.len() == 0 {
        Seq::empty()
    } else {
        let rest = world_outlines(s.drop_last());
        if s.last().1.entries().len() > 0 {
            rest + chunk_outline(s.last().0, chunk_status(s.last().1))
        } else {
            rest
        }
    }
}

/// A voxel survives the level-of-detail stride filter: all three local
/// coordinates are multiples of `2^lod`.
pub open spec fn stride_keeps(p: UVec3, lod: u32) -> bool {
    &&& p.x as int % pow2(lod as nat) as int == 0
    &&& p.y as int % pow2(lod as nat) as int == 0
    &&& p.z as int % pow2(lod as nat) as int == 0
}

/// The fractional offset added to cell translations at a level of detail
/// to keep the larger cells visually centered, in half-voxel units: the
/// sum of `s / 2` over the levels below `lod`.
pub open spec fn lod_offset_halves(lod: u32) -> int {
    (lod * (lod - 1)) / 2
}

fn lod_offset_halves_exec(lod: u32) -> (r: u32)
    requires
        lod < 32,
    ensures
        r == lod_offset_halves(lod),
{
    if lod == 0 {
        0
    } else {
        proof {
            assert(lod * (lod - 1) <= 992) by (nonlinear_arith)
                requires
                    1 <= lod < 32,
            ;
        }
        lod * (lod - 1) / 2
    }
}

/// The instance record one voxel contributes: the shared BLAS reference,
/// the packed material index and visibility mask, and a transform that
/// scales the unit box by the voxel's scale times the LOD stride and
/// translates it to the voxel's global position plus the LOD offset.
pub open spec fn voxel_record(
    p: UVec3,
    v: HostVoxel,
    visible: bool,
    lod: u32,
    grid: IVec3,
    blas: u64,
) -> InstanceRecord {
    InstanceRecord {
        acceleration_structure_reference: blas,
        instance_custom_index_and_mask: pack_index_mask(
            v.material_index,
            if visible {
                0xFF
            } else {
                0x00
            },
        ),
        translation_halves: IVec3 {
            x: (2 * (64 * grid.x + p.x) + lod_offset_halves(lod)) as i32,
            y: (2 * (64 * grid.y + p.y) + lod_offset_halves(lod)) as i32,
            z: (2 * (64 * grid.z + p.z) + lod_offset_halves(lod)) as i32,
        },
        scale_sixteenths: (v.scale_sixteenths * pow2(lod as nat)) as u64,
    }
}

/// The records a chunk's entries contribute at a level of detail: the
/// entries that survive the stride filter, in entry order.
pub open spec fn chunk_records(
    entries: Seq<(UVec3, HostVoxel)>,
    visible: bool,
    lod: u32,
    grid: IVec3,
    blas: u64,
) -> Seq<InstanceRecord>
    decreases entries.len(),
{
    if entries.len() == 0 {
        Seq::empty()
    } else {
        let rest = chunk_records(entries.drop_last(), visible, lod, grid, blas);
        if stride_keeps(entries.last().0, lod) {
            rest.push(voxel_record(entries.last().0, entries.last().1, visible, lod, grid, blas))
        } else {
            rest
        }
    }
}

/// A global coordinate lies inside the configured world volume.
pub open spec fn in_world_bounds(p: IVec3) -> bool {
    &&& -(WORLD_WIDTH * CHUNK_WIDTH as i32) < p.x < WORLD_WIDTH * CHUNK_WIDTH as i32
    &&& -(WORLD_HEIGHT * CHUNK_WIDTH as i32) < p.y < WORLD_HEIGHT * CHUNK_WIDTH as i32
    &&& -(WORLD_DEPTH * CHUNK_WIDTH as i32) < p.z < WORLD_DEPTH * CHUNK_WIDTH as i32
}

/// A chunk-grid coordinate lies inside the world's chunk grid.
pub open spec fn in_grid_bounds(g: IVec3) -> bool {
    &&& -WORLD_WIDTH <= g.x < WORLD_WIDTH
    &&& -WORLD_HEIGHT <= g.y < WORLD_HEIGHT
    &&& -WORLD_DEPTH <= g.z < WORLD_DEPTH
}

/// The chunk-grid coordinate a global coordinate falls in: floor division
/// by the chunk width, per axis.
pub open spec fn grid_of(p: IVec3) -> IVec3 {
    IVec3 { x: (p.x as int / 64) as i32, y: (p.y as int / 64) as i32, z: (p.z as int / 64) as i32 }
}

/// The coordinate local to its chunk: the remainder of the same division.
pub open spec fn local_of(p: IVec3) -> UVec3 {
    UVec3 {
        x: (p.x as int % 64) as u32,
        y: (p.y as int % 64) as u32,
        z: (p.z as int % 64) as u32,
    }
}

/// The key a chunk-grid coordinate hashes under; injective on in-grid
/// coordinates.
pub open spec fn grid_key(g: IVec3) -> u64 {
    ((g.x + 64) + (g.y + 64) * 128 + (g.z + 64) * 16384) as u64
}

proof fn lemma_grid_key_injective(p: IVec3, q: IVec3)
    requires
        in_grid_bounds(p),
        in_grid_bounds(q),
        grid_key(p) == grid_key(q),
    ensures
        p == q,
{
    assert(p.x == q.x && p.y == q.y && p.z == q.z) by (nonlinear_arith)
        requires
            -64 <= p.x < 64 && -64 <= p.y < 64 && -64 <= p.z < 64,
            -64 <= q.x < 64 && -64 <= q.y < 64 && -64 <= q.z < 64,
            (p.x + 64) + (p.y + 64) * 128 + (p.z + 64) * 16384 == (q.x + 64) + (q.y + 64) * 128 + (
            q.z + 64) * 16384,
    ;
}

fn grid_key_exec(g: &IVec3) -> (r: u64)
    requires
        in_grid_bounds(*g),
    ensures
        r == grid_key(*g),
{
    ((g.x + 64) as u64) + ((g.y + 64) as u64) * 128 + ((g.z + 64) as u64) * 16384
}

/// Split one axis of a global coordinate into its chunk-grid coordinate
/// and the offset inside that chunk.
fn split_axis(v: i32) -> (r: (i32, u32))
    requires
        -4096 < v < 4096,
    ensures
        r.0 == v as int / 64,
        r.1 == v as int % 64,
        -64 <= r.0 < 64,
        0 <= r.1 < 64,
        64 * r.0 + r.1 == v,
{
    let shifted = (v + 4096) as u32;
    let q = shifted / 64;
    let rem = shifted % 64;
    proof {
        vstd::arithmetic::div_mod::lemma_fundamental_div_mod(shifted as int, 64);
        vstd::arithmetic::div_mod::lemma_fundamental_div_mod_converse(
            v as int,
            64,
            q as int - 64,
            rem as int,
        );
    }
    (q as i32 - 64, rem)
}

/// Positions in a chunk's entry sequence are distinct.
pub open spec fn pos_distinct(s: Seq<(UVec3, HostVoxel)>) -> bool {
    forall|i: int, j: int| 0 <= i < j < s.len() ==> s[i].0 != s[j].0
}

/// How pushing one entry changes lookups: the pushed position becomes
/// present, every other position is untouched.
proof fn lemma_entries_push_lookup(s: Seq<(UVec3, HostVoxel)>, e: (UVec3, HostVoxel), p: UVec3)
    requires
        pos_distinct(s),
    ensures
        has_pos(s.push(e), e.0),
        !has_pos(s, e.0) ==> payload_at(s.push(e), e.0) == e.1,
        p != e.0 ==> has_pos(s.push(e), p) == has_pos(s, p),
        p != e.0 && has_pos(s, p) ==> payload_at(s.push(e), p) == payload_at(s, p),
{
    let t = s.push(e);
    assert(t[s.len() as int] == e);
    assert forall|i: int| 0 <= i < s.len() implies t[i] == s[i] by {}
    if !has_pos(s, e.0) {
        let i = choose|i: int| 0 <= i < t.len() && t[i].0 == e.0;
        assert(i == s.len());
    }
    if p != e.0 {
        if has_pos(t, p) {
            let i = choose|i: int| 0 <= i < t.len() && t[i].0 == p;
            assert(i < s.len());
            assert(s[i].0 == p);
        }
        if has_pos(s, p) {
            let i = choose|i: int| 0 <= i < t.len() && t[i].0 == p;
            let j = choose|j: int| 0 <= j < s.len() && s[j].0 == p;
            assert(t[j].0 == p);
            assert(i < s.len());
            if i != j {
                assert(s[i].0 != s[j].0);
            }
        }
    }
}

/// Some chunk of `s` sits at grid coordinate `g`.
pub open spec fn has_grid(s: Seq<(IVec3, Chunk)>, g: IVec3) -> bool {
    exists|i: int| 0 <= i < s.len() && s[i].0 == g
}

/// Grid coordinates in a chunk sequence are distinct.
pub open spec fn grid_distinct(s: Seq<(IVec3, Chunk)>) -> bool {
    forall|i: int, j: int| 0 <= i < j < s.len() ==> s[i].0 != s[j].0
}

/// The chunk of `s` at grid coordinate `g`.
pub open spec fn chunk_at(s: Seq<(IVec3, Chunk)>, g: IVec3) -> Chunk {
    let i = choose|i: int| 0 <= i < s.len() && s[i].0 == g;
    s[i].1
}

/// With distinct grid coordinates, `chunk_at` returns the chunk stored at
/// any index bearing the looked-up coordinate.
proof fn lemma_chunk_at_index(s: Seq<(IVec3, Chunk)>, i: int)
    requires
        grid_distinct(s),
        0 <= i < s.len(),
    ensures
        has_grid(s, s[i].0),
        chunk_at(s, s[i].0) == s[i].1,
{
    let j = choose|j: int| 0 <= j < s.len() && s[j].0 == s[i].0;
    if i != j {
        assert(s[i].0 != s[j].0);
    }
}

/// Replacing the chunk stored at index `i` leaves every other grid
/// coordinate's lookup untouched.
proof fn lemma_update_preserves_others(s: Seq<(IVec3, Chunk)>, i: int, c: Chunk, g: IVec3)
    requires
        grid_distinct(s),
        0 <= i < s.len(),
        g != s[i].0,
    ensures
        has_grid(s.update(i, (s[i].0, c)), g) == has_grid(s, g),
        has_grid(s, g) ==> chunk_at(s.update(i, (s[i].0, c)), g) == chunk_at(s, g),
{
    let t = s.update(i, (s[i].0, c));
    assert(t.len() == s.len());
    assert forall|j: int| 0 <= j < s.len() implies t[j].0 == s[j].0 by {}
    if has_grid(s, g) {
        let j = choose|j: int| 0 <= j < s.len() && s[j].0 == g;
        assert(t[j].0 == g);
        let j2 = choose|j2: int| 0 <= j2 < t.len() && t[j2].0 == g;
        if j2 != j {
            assert(s[j2].0 != s[j].0);
        }
        assert(j2 != i);
    }
    if has_grid(t, g) {
        let j = choose|j: int| 0 <= j < t.len() && t[j].0 == g;
        assert(s[j].0 == g);
    }
}

/// Appending a chunk at a fresh grid coordinate leaves every other grid
/// coordinate's lookup untouched, and makes the new one present.
proof fn lemma_push_chunk_lookup(s: Seq<(IVec3, Chunk)>, e: (IVec3, Chunk), g: IVec3)
    requires
        grid_distinct(s),
        !has_grid(s, e.0),
    ensures
        grid_distinct(s.push(e)),
        has_grid(s.push(e), e.0),
        chunk_at(s.push(e), e.0) == e.1,
        g != e.0 ==> has_grid(s.push(e), g) == has_grid(s, g),
        g != e.0 && has_grid(s, g) ==> chunk_at(s.push(e), g) == chunk_at(s, g),
{
    let t = s.push(e);
    assert(t[s.len() as int] == e);
    assert forall|j: int| 0 <= j < s.len() implies t[j] == s[j] by {}
    assert forall|i: int, j: int| 0 <= i < j < t.len() implies t[i].0 != t[j].0 by {
        if j == s.len() {
            assert(s[i].0 == t[i].0);
        }
    }
    lemma_chunk_at_index(t, s.len() as int);
    if g != e.0 {
        if has_grid(t, g) {
            let j = choose|j: int| 0 <= j < t.len() && t[j].0 == g;
            assert(j < s.len());
            assert(s[j].0 == g);
        }
        if has_grid(s, g) {
            let j = choose|j: int| 0 <= j < s.len() && s[j].0 == g;
            assert(t[j].0 == g);
            lemma_chunk_at_index(t, j);
            lemma_chunk_at_index(s, j);
        }
    }
}

/// Truncating division of one coordinate axis by the chunk width.
fn trunc_div64(v: i32) -> (r: i32)
    requires
        -0x0010_0000 < v < 0x0010_0000,
    ensures
        r == trunc_div(v as int, 64),
        -0x4000 < r < 0x4000,
{
    if v >= 0 {
        proof {
            vstd::arithmetic::div_mod::lemma_fundamental_div_mod(v as int, 64);
            vstd::arithmetic::div_mod::lemma_mod_bound(v as int, 64);
        }
        ((v as u32) / 64) as i32
    } else {
        proof {
            vstd::arithmetic::div_mod::lemma_fundamental_div_mod((-v) as int, 64);
            vstd::arithmetic::div_mod::lemma_mod_bound((-v) as int, 64);
        }
        -((((-v) as u32) / 64) as i32)
    }
}

/// A global coordinate is determined by its chunk-grid coordinate and its
/// local coordinate.
proof fn lemma_coord_reconstruct(p: IVec3, q: IVec3)
    requires
        grid_of(p) == grid_of(q),
        local_of(p) == local_of(q),
    ensures
        p == q,
{
    vstd::arithmetic::div_mod::lemma_fundamental_div_mod(p.x as int, 64);
    vstd::arithmetic::div_mod::lemma_fundamental_div_mod(p.y as int, 64);
    vstd::arithmetic::div_mod::lemma_fundamental_div_mod(p.z as int, 64);
    vstd::arithmetic::div_mod::lemma_fundamental_div_mod(q.x as int, 64);
    vstd::arithmetic::div_mod::lemma_fundamental_div_mod(q.y as int, 64);
    vstd::arithmetic::div_mod::lemma_fundamental_div_mod(q.z as int, 64);
    lemma_axis_div_mod_bounds(p.x);
    lemma_axis_div_mod_bounds(p.y);
    lemma_axis_div_mod_bounds(p.z);
    lemma_axis_div_mod_bounds(q.x);
    lemma_axis_div_mod_bounds(q.y);
    lemma_axis_div_mod_bounds(q.z);
}

/// Division of an `i32` axis value by the chunk width stays within `i32`,
/// and the remainder within the chunk width.
proof fn lemma_axis_div_mod_bounds(v: i32)
    ensures
        i32::MIN <= v as int / 64 <= i32::MAX,
        0 <= v as int % 64 < 64,
        v as int == 64 * (v as int / 64) + (v as int % 64),
{
    vstd::arithmetic::div_mod::lemma_fundamental_div_mod(v as int, 64);
    vstd::arithmetic::div_mod::lemma_mod_bound(v as int, 64);
    assert(i32::MIN <= v as int / 64 <= i32::MAX) by (nonlinear_arith)
        requires
            v as int == 64 * (v as int / 64) + (v as int % 64),
            0 <= v as int % 64 < 64,
            i32::MIN <= v as int <= i32::MAX,
    ;
}

/// The chunked spatial index over the whole world. Chunks are stored
/// sparsely, in creation order; a chunk that was never touched is
/// indistinguishable from an empty, visible one.
pub struct Chunks {
    chunks: Vec<(IVec3, Chunk)>,
    index: HashMap<u64, usize>,
}

impl Chunks {
    /// The stored chunks, as (grid coordinate, chunk) pairs in creation
    /// order.
    pub closed spec fn chunk_seq(&self) -> Seq<(IVec3, Chunk)> {
        self.chunks@
    }

    /// Well-formed: grid coordinates are distinct and in grid bounds,
    /// every chunk is well-formed, and the hash index mirrors the chunk
    /// vector exactly.
    pub closed spec fn wf(&self) -> bool {
        &&& grid_distinct(self.chunks@)
        &&& forall|i: int|
            0 <= i < self.chunks@.len() ==> in_grid_bounds(#[trigger] self.chunks@[i].0)
        &&& forall|i: int| 0 <= i < self.chunks@.len() ==> (#[trigger] self.chunks@[i].1).wf()
        &&& forall|i: int|
            0 <= i < self.chunks@.len() ==> {
                &&& self.index@.contains_key(#[trigger] grid_key(self.chunks@[i].0))
                &&& self.index@[grid_key(self.chunks@[i].0)] == i
            }
        &&& forall|k: u64|
            self.index@.contains_key(k) ==> {
                &&& #[trigger] self.index@[k] < self.chunks@.len()
                &&& grid_key(self.chunks@[self.index@[k] as int].0) == k
            }
    }

    /// Whether the chunk holding grid coordinate `g` is visible; a chunk
    /// that was never stored counts as visible, as freshly stored chunks
    /// are.
    pub open spec fn chunk_visible(&self, g: IVec3) -> bool {
        if has_grid(self.chunk_seq(), g) {
            chunk_at(self.chunk_seq(), g).visible_spec()
        } else {
            true
        }
    }

    /// The voxel the world holds at a global coordinate, if any.
    pub open spec fn voxel_at(&self, p: IVec3) -> Option<HostVoxel> {
        if has_grid(self.chunk_seq(), grid_of(p)) && has_pos(
            chunk_at(self.chunk_seq(), grid_of(p)).entries(),
            local_of(p),
        ) {
            Some(payload_at(chunk_at(self.chunk_seq(), grid_of(p)).entries(), local_of(p)))
        } else {
            None
        }
    }

    /// An empty world; chunks come into being as voxels are inserted.
    pub fn new() -> (r: Chunks)
        ensures
            r.wf(),
            r.chunk_seq().len() == 0,
    {
        Chunks { chunks: Vec::new(), index: HashMap::new() }
    }

    /// A global coordinate is inside the world volume.
    pub fn in_bounds(position: &IVec3) -> (r: bool)
        ensures
            r == in_world_bounds(*position),
    {
        let x_bounds = Bounds(-(WORLD_WIDTH * CHUNK_WIDTH as i32), WORLD_WIDTH * CHUNK_WIDTH as i32);
        let y_bounds = Bounds(
            -(WORLD_HEIGHT * CHUNK_WIDTH as i32),
            WORLD_HEIGHT * CHUNK_WIDTH as i32,
        );
        let z_bounds = Bounds(-(WORLD_DEPTH * CHUNK_WIDTH as i32), WORLD_DEPTH * CHUNK_WIDTH as i32);
        x_bounds.inside(position.x) && y_bounds.inside(position.y) && z_bounds.inside(position.z)
    }

    /// Split a global coordinate into its chunk-grid coordinate and the
    /// coordinate local to that chunk. The two compose back to the
    /// argument: `CHUNK_WIDTH * grid + local == position`, per axis.
    pub fn translation_to_position(position: &IVec3) -> (r: (IVec3, UVec3))
        requires
            in_world_bounds(*position),
        ensures
            r.0 == grid_of(*position),
            r.1 == local_of(*position),
            in_grid_bounds(r.0),
            in_chunk_bounds(r.1),
            CHUNK_WIDTH * r.0.x + r.1.x == position.x,
            CHUNK_WIDTH * r.0.y + r.1.y == position.y,
            CHUNK_WIDTH * r.0.z + r.1.z == position.z,
    {
        let (gx, lx) = split_axis(position.x);
        let (gy, ly) = split_axis(position.y);
        let (gz, lz) = split_axis(position.z);
        (IVec3 { x: gx, y: gy, z: gz }, UVec3 { x: lx, y: ly, z: lz })
    }

    /// Find the stored chunk at a grid coordinate, if there is one.
    fn find_chunk(&self, grid_position: &IVec3) -> (r: Option<usize>)
        requires
            self.wf(),
            in_grid_bounds(*grid_position),
        ensures
            match r {
                Some(i) => i < self.chunk_seq().len() && self.chunk_seq()[i as int].0
                    == *grid_position,
                None => !has_grid(self.chunk_seq(), *grid_position),
            },
    {
        let key = grid_key_exec(grid_position);
        match self.index.get(&key) {
            Some(i) => {
                proof {
                    lemma_grid_key_injective(self.chunks@[*i as int].0, *grid_position);
                }
                Some(*i)
            },
            None => {
                proof {
                    if has_grid(self.chunks@, *grid_position) {
                        let i = choose|i: int|
                            0 <= i < self.chunks@.len() && self.chunks@[i].0 == *grid_position;
                        assert(self.index@.contains_key(grid_key(self.chunks@[i].0)));
                    }
                }
                None
            },
        }
    }

    /// The world contains a voxel at a global coordinate.
    pub fn contains(&self, position: &IVec3) -> (r: bool)
        requires
            self.wf(),
            in_world_bounds(*position),
        ensures
            r == (self.voxel_at(*position) is Some),
    {
        let (grid_position, local_position) = Chunks::translation_to_position(position);
        match self.find_chunk(&grid_position) {
            Some(i) => {
                let chunk = &self.chunks[i].1;
                proof {
                    if has_grid(self.chunks@, grid_of(*position)) {
                        let j = choose|j: int|
                            0 <= j < self.chunks@.len() && self.chunks@[j].0 == grid_of(*position);
                        if i as int != j {
                            assert(self.chunks@[i as int].0 != self.chunks@[j].0);
                        }
                    }
                }
                chunk.contains(&local_position)
            },
            None => false,
        }
    }

    /// The integer-truncated Euclidean distance, in chunk-grid units,
    /// between a chunk and the chunk the reference point falls in. The
    /// reference point may lie anywhere the squared distance stays within
    /// machine range; within the world volume the result never exceeds
    /// 219.
    pub fn distance_to_chunk(grid_position: &IVec3, position: &IVec3) -> (r: i32)
        requires
            in_grid_bounds(*grid_position),
            -0x0010_0000 < position.x < 0x0010_0000,
            -0x0010_0000 < position.y < 0x0010_0000,
            -0x0010_0000 < position.z < 0x0010_0000,
        ensures
            r == chunk_distance(*grid_position, *position),
            0 <= r <= 28489,
    {
        let ocx = trunc_div64(position.x);
        let ocy = trunc_div64(position.y);
        let ocz = trunc_div64(position.z);
        proof {
            assert(origin_chunk(*position) == IVec3 { x: ocx, y: ocy, z: ocz });
        }
        let dx = grid_position.x - ocx;
        let dy = grid_position.y - ocy;
        let dz = grid_position.z - ocz;
        proof {
            assert(0 <= dx * dx <= 0x1020_4081 && 0 <= dy * dy <= 0x1020_4081 && 0 <= dz * dz
                <= 0x1020_4081) by (nonlinear_arith)
                requires
                    -0x4040 <= dx <= 0x4040,
                    -0x4040 <= dy <= 0x4040,
                    -0x4040 <= dz <= 0x4040,
            ;
        }
        let d2 = (dx * dx + dy * dy + dz * dz) as u32;
        let rt = isqrt(d2);
        proof {
            lemma_int_sqrt_unique(d2 as int, rt as int);
            assert(rt <= 28489) by (nonlinear_arith)
                requires
                    rt * rt <= d2,
                    d2 <= 0x3060_C183,
            ;
        }
        rt as i32
    }

    /// The grid coordinates of all non-empty, visible chunks, in storage
    /// order.
    pub fn active_chunks(&self) -> (r: Vec<IVec3>)
        ensures
            r@ == active_seq(self.chunk_seq()),
    {
        let mut out: Vec<IVec3> = Vec::new();
        let mut i: usize = 0;
        while i < self.chunks.len()
            invariant
                i <= self.chunks@.len(),
                out@ == active_seq(self.chunks@.take(i as int)),
            decreases self.chunks@.len() - i,
        {
            let c = &self.chunks[i];
            if !c.1.empty() && c.1.visible() {
                out.push(c.0);
            }
            proof {
                assert(self.chunks@.take(i + 1).drop_last() =~= self.chunks@.take(i as int));
                assert(self.chunks@.take(i + 1).last() == self.chunks@[i as int]);
            }
            i = i + 1;
        }
        proof {
            assert(self.chunks@.take(self.chunks@.len() as int) =~= self.chunks@);
        }
        out
    }

    /// How many voxels the chunk at a grid coordinate holds; zero when the
    /// chunk was never stored.
    pub fn chunk_len(&self, grid_position: &IVec3) -> (r: usize)
        requires
            self.wf(),
            in_grid_bounds(*grid_position),
        ensures
            r == if has_grid(self.chunk_seq(), *grid_position) {
                chunk_at(self.chunk_seq(), *grid_position).entries().len()
            } else {
                0
            },
    {
        match self.find_chunk(grid_position) {
            Some(i) => {
                proof {
                    lemma_chunk_at_index(self.chunks@, i as int);
                }
                self.chunks[i].1.len()
            },
            None => 0,
        }
    }

    /// The bounding-box outlines of all non-empty chunks, for debug
    /// drawing, in storage order.
    pub fn debug_lines(&self) -> (r: Vec<Vertex3DColor>)
        requires
            self.wf(),
        ensures
            r@ == world_outlines(self.chunk_seq()),
    {
        let mut out: Vec<Vertex3DColor> = Vec::new();
        let mut i: usize = 0;
        while i < self.chunks.len()
            invariant
                self.wf(),
                i <= self.chunks@.len(),
                out@ == world_outlines(self.chunks@.take(i as int)),
            decreases self.chunks@.len() - i,
        {
            let c = &self.chunks[i];
            if !c.1.empty() {
                let lines = c.1.debug_lines(c.0);
                let ghost prefix = out@;
                let mut k: usize = 0;
                while k < lines.len()
                    invariant
                        k <= lines@.len(),
                        out@ == prefix + lines@.take(k as int),
                    decreases lines@.len() - k,
                {
                    proof {
                        assert(lines@.take(k + 1) =~= lines@.take(k as int).push(lines@[k as int]));
                        assert(prefix + lines@.take(k + 1) =~= (prefix + lines@.take(
                            k as int,
                        )).push(lines@[k as int]));
                    }
                    out.push(lines[k]);
                    k = k + 1;
                }
                proof {
                    assert(lines@.take(lines@.len() as int) =~= lines@);
                }
            }
            proof {
                assert(self.chunks@.take(i + 1).drop_last() =~= self.chunks@.take(i as int));
                assert(self.chunks@.take(i + 1).last() == self.chunks@[i as int]);
            }
            i = i + 1;
        }
        proof {
            assert(self.chunks@.take(self.chunks@.len() as int) =~= self.chunks@);
        }
        out
    }

    /// Generate the TLAS instance array: every voxel of every non-empty,
    /// visible chunk that survives the LOD stride filter, in blocks per
    /// chunk ordered by truncated chunk distance from the reference point
    /// (nearest first; chunks at equal distance keep storage order),
    /// truncated to `max_instance_count` records. Nearest-first ordering
    /// decides which voxels are dropped under capacity pressure: distant
    /// detail is sacrificed first.
    ///
    /// The reference point is a voxel coordinate inside the world's fixed
    /// bounding volume; every stored chunk then lies within 219 chunk
    /// units of it, the cap `sorted_actives` orders up to.
    pub fn to_instances(
        &self,
        lod: u32,
        origin: &IVec3,
        acceleration_structure_reference: u64,
        max_instance_count: u64,
    ) -> (r: Vec<InstanceRecord>)
        requires
            self.wf(),
            lod < 32,
            in_world_bounds(*origin),
        ensures
            r@ == trunc_records(
                flat_records(
                    sorted_actives(active_seq(self.chunk_seq()), *origin),
                    self.chunk_seq(),
                    lod,
                    acceleration_structure_reference,
                ),
                max_instance_count as int,
            ),
            r@.len() <= max_instance_count,
    {
        let ghost cs = self.chunks@;
        let ghost full_order = sorted_actives(active_seq(cs), *origin);
        let actives = self.active_chunks();
        let mut out: Vec<InstanceRecord> = Vec::new();
        let mut d: u32 = 0;
        while d <= 219
            invariant
                self.wf(),
                lod < 32,
                in_world_bounds(*origin),
                cs == self.chunks@,
                actives@ == active_seq(cs),
                d <= 220,
                out@ == trunc_records(
                    flat_records(
                        sorted_actives_upto(actives@, *origin, d as int - 1),
                        cs,
                        lod,
                        acceleration_structure_reference,
                    ),
                    max_instance_count as int,
                ),
            decreases 220 - d,
        {
            let mut j: usize = 0;
            while j < actives.len()
                invariant
                    self.wf(),
                    lod < 32,
                    in_world_bounds(*origin),
                    cs == self.chunks@,
                    actives@ == active_seq(cs),
                    d <= 219,
                    j <= actives@.len(),
                    out@ == trunc_records(
                        flat_records(
                            sorted_actives_upto(actives@, *origin, d as int - 1)
                                + actives_at_distance(actives@.take(j as int), *origin, d as int),
                            cs,
                            lod,
                            acceleration_structure_reference,
                        ),
                        max_instance_count as int,
                    ),
                decreases actives@.len() - j,
            {
                let g = actives[j];
                proof {
                    lemma_active_seq_elem(cs, j as int);
                    let w = choose|w: int| 0 <= w < cs.len() && cs[w].0 == g;
                    assert(in_grid_bounds(cs[w].0));
                    assert(actives@.take(j + 1).drop_last() =~= actives@.take(j as int));
                    assert(actives@.take(j + 1).last() == g);
                }
                let dist = Chunks::distance_to_chunk(&g, origin);
                if dist == d as i32 {
                    let ghost order_so_far = sorted_actives_upto(actives@, *origin, d as int - 1)
                        + actives_at_distance(actives@.take(j as int), *origin, d as int);
                    match self.find_chunk(&g) {
                        Some(i) => {
                            proof {
                                lemma_chunk_at_index(cs, i as int);
                            }
                            let recs = self.chunks[i].1.to_instances(
                                lod,
                                g,
                                acceleration_structure_reference,
                            );
                            let ghost flat_prefix = flat_records(
                                order_so_far,
                                cs,
                                lod,
                                acceleration_structure_reference,
                            );
                            let mut k: usize = 0;
                            while k < recs.len()
                                invariant
                                    k <= recs@.len(),
                                    out@ == trunc_records(
                                        flat_prefix + recs@.take(k as int),
                                        max_instance_count as int,
                                    ),
                                decreases recs@.len() - k,
                            {
                                proof {
                                    assert(recs@.take(k + 1) =~= recs@.take(k as int).push(
                                        recs@[k as int],
                                    ));
                                    assert((flat_prefix + recs@.take(k + 1)) =~= (flat_prefix
                                        + recs@.take(k as int)).push(recs@[k as int]));
                                    lemma_trunc_push(
                                        flat_prefix + recs@.take(k as int),
                                        recs@[k as int],
                                        max_instance_count as int,
                                    );
                                }
                                if (out.len() as u64) < max_instance_count {
                                    let rec = recs[k];
                                    out.push(rec);
                                }
                                k = k + 1;
                            }
                            proof {
                                assert(recs@.take(recs@.len() as int) =~= recs@);
                                lemma_flat_records_push(
                                    order_so_far,
                                    g,
                                    cs,
                                    lod,
                                    acceleration_structure_reference,
                                );
                                assert(order_so_far.push(g) =~= sorted_actives_upto(
                                    actives@,
                                    *origin,
                                    d as int - 1,
                                ) + actives_at_distance(actives@.take(j + 1), *origin, d as int));
                            }
                        },
                        None => {
                            proof {
                                assert(false);
                            }
                        },
                    }
                } else {
                    proof {
                        assert(actives_at_distance(actives@.take(j + 1), *origin, d as int)
                            =~= actives_at_distance(actives@.take(j as int), *origin, d as int));
                    }
                }
                j = j + 1;
            }
            proof {
                assert(actives@.take(actives@.len() as int) =~= actives@);
                assert(sorted_actives_upto(actives@, *origin, d as int) == sorted_actives_upto(
                    actives@,
                    *origin,
                    d as int - 1,
                ) + actives_at_distance(actives@, *origin, d as int));
            }
            d = d + 1;
        }
        out
    }

    /// Insert a voxel at a global coordinate, creating the chunk that
    /// holds the coordinate if this is its first voxel. Returns the chunk
    /// coordinate the voxel landed in, or `None` — leaving every prior
    /// voxel untouched — when the coordinate is already occupied. A
    /// coordinate outside the world volume is a caller error.
    pub fn insert_voxel(&mut self, position: IVec3, voxel: HostVoxel) -> (r: Option<IVec3>)
        requires
            old(self).wf(),
            in_world_bounds(position),
        ensures
            final(self).wf(),
            r is Some <==> old(self).voxel_at(position) is None,
            r is Some ==> r == Some(grid_of(position)),
            final(self).voxel_at(position) == if old(self).voxel_at(position) is Some {
                old(self).voxel_at(position)
            } else {
                Some(voxel)
            },
            forall|q: IVec3|
                q != position ==> #[trigger] final(self).voxel_at(q) == old(self).voxel_at(q),
            forall|g: IVec3| #[trigger]
                final(self).chunk_visible(g) == old(self).chunk_visible(g),
    {
        let (grid_position, local_position) = Chunks::translation_to_position(&position);
        match self.find_chunk(&grid_position) {
            Some(i) => {
                proof {
                    lemma_chunk_at_index(old(self).chunks@, i as int);
                }
                let ghost old_chunk = self.chunks@[i as int].1;
                let c = &mut self.chunks[i];
                let inserted = c.1.insert(local_position, voxel);
                proof {
                    let s_old = old(self).chunks@;
                    let s_new = self.chunks@;
                    let g = grid_of(position);
                    let l = local_of(position);
                    let c_new = s_new[i as int].1;
                    assert(s_new =~= s_old.update(i as int, (g, c_new)));
                    assert forall|jj: int, kk: int|
                        0 <= jj < kk < s_new.len() implies s_new[jj].0 != s_new[kk].0 by {
                        assert(s_old[jj].0 == s_new[jj].0);
                        assert(s_old[kk].0 == s_new[kk].0);
                    }
                    lemma_chunk_at_index(s_new, i as int);
                    lemma_entries_push_lookup(old_chunk.entries(), (l, voxel), l);
                    assert forall|q: IVec3|
                        q != position implies #[trigger] self.voxel_at(q) == old(self).voxel_at(
                        q,
                    ) by {
                        if grid_of(q) == g {
                            if local_of(q) == l {
                                lemma_coord_reconstruct(position, q);
                            }
                            lemma_entries_push_lookup(old_chunk.entries(), (l, voxel), local_of(q));
                        } else {
                            lemma_update_preserves_others(s_old, i as int, c_new, grid_of(q));
                        }
                    }
                    assert forall|g2: IVec3| #[trigger]
                        self.chunk_visible(g2) == old(self).chunk_visible(g2) by {
                        if g2 == g {
                        } else {
                            lemma_update_preserves_others(s_old, i as int, c_new, g2);
                        }
                    }
                }
                if inserted {
                    Some(grid_position)
                } else {
                    None
                }
            },
            None => {
                let mut chunk = Chunk::default();
                let _ = chunk.insert(local_position, voxel);
                let key = grid_key_exec(&grid_position);
                proof {
                    if self.index@.contains_key(grid_key(grid_position)) {
                        let j = self.index@[grid_key(grid_position)];
                        lemma_grid_key_injective(self.chunks@[j as int].0, grid_position);
                    }
                }
                let n = self.chunks.len();
                self.index.insert(key, n);
                self.chunks.push((grid_position, chunk));
                proof {
                    let s_old = old(self).chunks@;
                    let s_new = self.chunks@;
                    let g = grid_of(position);
                    let l = local_of(position);
                    assert(s_new =~= s_old.push((g, chunk)));
                    lemma_push_chunk_lookup(s_old, (g, chunk), g);
                    assert(chunk.entries() =~= Seq::empty().push((l, voxel)));
                    assert(chunk.entries()[0] == (l, voxel));
                    assert forall|q: IVec3|
                        q != position implies #[trigger] self.voxel_at(q) == old(self).voxel_at(
                        q,
                    ) by {
                        lemma_push_chunk_lookup(s_old, (g, chunk), grid_of(q));
                        if grid_of(q) == g {
                            if local_of(q) == l {
                                lemma_coord_reconstruct(position, q);
                            }
                            if has_pos(chunk.entries(), local_of(q)) {
                                let jj = choose|jj: int|
                                    0 <= jj < chunk.entries().len() && chunk.entries()[jj].0
                                        == local_of(q);
                                assert(jj == 0);
                            }
                        }
                    }
                    assert forall|g2: IVec3| #[trigger]
                        self.chunk_visible(g2) == old(self).chunk_visible(g2) by {
                        lemma_push_chunk_lookup(s_old, (g, chunk), g2);
                    }
                }
                Some(grid_position)
            },
        }
    }

    /// Set the visibility flag of the chunk at a grid coordinate, creating
    /// the chunk empty if it was never stored. No voxel is touched.
    pub fn set_chunk_visibility(&mut self, grid_position: IVec3, visible: bool)
        requires
            old(self).wf(),
            in_grid_bounds(grid_position),
        ensures
            final(self).wf(),
            final(self).chunk_visible(grid_position) == visible,
            forall|g: IVec3|
                g != grid_position ==> #[trigger] final(self).chunk_visible(g) == old(
                    self,
                ).chunk_visible(g),
            forall|q: IVec3| #[trigger] final(self).voxel_at(q) == old(self).voxel_at(q),
    {
        match self.find_chunk(&grid_position) {
            Some(i) => {
                proof {
                    lemma_chunk_at_index(old(self).chunks@, i as int);
                }
                let ghost old_chunk = self.chunks@[i as int].1;
                let c = &mut self.chunks[i];
                c.1.set_visible(visible);
                proof {
                    let s_old = old(self).chunks@;
                    let s_new = self.chunks@;
                    let c_new = s_new[i as int].1;
                    assert(s_new =~= s_old.update(i as int, (grid_position, c_new)));
                    assert forall|jj: int, kk: int|
                        0 <= jj < kk < s_new.len() implies s_new[jj].0 != s_new[kk].0 by {
                        assert(s_old[jj].0 == s_new[jj].0);
                        assert(s_old[kk].0 == s_new[kk].0);
                    }
                    lemma_chunk_at_index(s_new, i as int);
                    assert forall|g2: IVec3|
                        g2 != grid_position implies #[trigger] self.chunk_visible(g2) == old(
                        self,
                    ).chunk_visible(g2) by {
                        lemma_update_preserves_others(s_old, i as int, c_new, g2);
                    }
                    assert forall|q: IVec3| #[trigger]
                        self.voxel_at(q) == old(self).voxel_at(q) by {
                        if grid_of(q) == grid_position {
                        } else {
                            lemma_update_preserves_others(s_old, i as int, c_new, grid_of(q));
                        }
                    }
                }
            },
            None => {
                let mut chunk = Chunk::default();
                chunk.set_visible(visible);
                let key = grid_key_exec(&grid_position);
                proof {
                    if self.index@.contains_key(grid_key(grid_position)) {
                        let j = self.index@[grid_key(grid_position)];
                        lemma_grid_key_injective(self.chunks@[j as int].0, grid_position);
                    }
                }
                let n = self.chunks.len();
                self.index.insert(key, n);
                self.chunks.push((grid_position, chunk));
                proof {
                    let s_old = old(self).chunks@;
                    let s_new = self.chunks@;
                    assert(s_new =~= s_old.push((grid_position, chunk)));
                    lemma_push_chunk_lookup(s_old, (grid_position, chunk), grid_position);
                    assert forall|g2: IVec3|
                        g2 != grid_position implies #[trigger] self.chunk_visible(g2) == old(
                        self,
                    ).chunk_visible(g2) by {
                        lemma_push_chunk_lookup(s_old, (grid_position, chunk), g2);
                    }
                    assert forall|q: IVec3| #[trigger]
                        self.voxel_at(q) == old(self).voxel_at(q) by {
                        lemma_push_chunk_lookup(s_old, (grid_position, chunk), grid_of(q));
                    }
                }
            },
        }
    }

    /// Look the voxel at a global coordinate up.
    pub fn get_voxel(&self, position: &IVec3) -> (r: Option<&HostVoxel>)
        requires
            self.wf(),
            in_world_bounds(*position),
        ensures
            match r {
                Some(v) => self.voxel_at(*position) == Some(*v),
                None => self.voxel_at(*position) is None,
            },
    {
        let (grid_position, local_position) = Chunks::translation_to_position(position);
        match self.find_chunk(&grid_position) {
            Some(i) => {
                let chunk = &self.chunks[i].1;
                proof {
                    if has_grid(self.chunks@, grid_of(*position)) {
                        let j = choose|j: int|
                            0 <= j < self.chunks@.len() && self.chunks@[j].0 == grid_of(*position);
                        if i as int != j {
                            assert(self.chunks@[i as int].0 != self.chunks@[j].0);
                        }
                    }
                }
                chunk.get(&local_position)
            },
            None => None,
        }
    }
}

/// The grid coordinates of the chunks of `s` that are non-empty and
/// visible, in storage order.
pub open spec fn active_seq(s: Seq<(IVec3, Chunk)>) -> Seq<IVec3>
    decreases s.len(),
{
    if s.len() == 0 {
        Seq::empty()
    } else {
        let rest = active_seq(s.drop_last());
        if s.last().1.entries().len() > 0 && s.last().1.visible_spec() {
            rest.push(s.last().0)
        } else {
            rest
        }
    }
}

/// The chunk-grid cell a reference point falls in for distance purposes:
/// truncating division by the chunk width, per axis — this rounds toward
/// zero, unlike the flooring split that addresses chunks.
pub open spec fn origin_chunk(origin: IVec3) -> IVec3 {
    IVec3 {
        x: trunc_div(origin.x as int, 64) as i32,
        y: trunc_div(origin.y as int, 64) as i32,
        z: trunc_div(origin.z as int, 64) as i32,
    }
}

/// Squared Euclidean distance between two grid coordinates.
pub open spec fn dist_sq(a: IVec3, b: IVec3) -> int {
    (a.x - b.x) * (a.x - b.x) + (a.y - b.y) * (a.y - b.y) + (a.z - b.z) * (a.z - b.z)
}

/// `r` is the integer square root of `n`.
pub open spec fn is_int_sqrt(n: int, r: int) -> bool {
    0 <= r && r * r <= n && n < (r + 1) * (r + 1)
}

/// The integer square root of a non-negative integer.
pub open spec fn int_sqrt(n: int) -> int {
    choose|r: int| is_int_sqrt(n, r)
}

/// Every non-negative integer has an integer square root.
pub proof fn lemma_int_sqrt_exists(n: int)
    requires
        n >= 0,
    ensures
        is_int_sqrt(n, int_sqrt(n)),
    decreases n,
{
    if n == 0 {
        assert(is_int_sqrt(0, 0));
    } else {
        lemma_int_sqrt_exists(n - 1);
        let r = int_sqrt(n - 1);
        if (r + 1) * (r + 1) == n {
            assert(is_int_sqrt(n, r + 1)) by (nonlinear_arith)
                requires
                    is_int_sqrt(n - 1, r),
                    (r + 1) * (r + 1) == n,
            ;
        } else {
            assert(is_int_sqrt(n, r));
        }
    }
}

/// The integer square root is unique.
pub proof fn lemma_int_sqrt_unique(n: int, r: int)
    requires
        is_int_sqrt(n, r),
    ensures
        r == int_sqrt(n),
{
    let c = int_sqrt(n);
    assert(is_int_sqrt(n, c));
    assert(r == c) by (nonlinear_arith)
        requires
            is_int_sqrt(n, r),
            is_int_sqrt(n, c),
    ;
}

/// The integer-truncated Euclidean distance, in chunk-grid units, between
/// a chunk and the chunk a reference point falls in.
pub open spec fn chunk_distance(grid: IVec3, origin: IVec3) -> int {
    int_sqrt(dist_sq(grid, origin_chunk(origin)))
}

/// In-bounds chunk distances are at most 219.
pub proof fn lemma_chunk_distance_bounds(grid: IVec3, origin: IVec3)
    requires
        in_grid_bounds(grid),
        in_world_bounds(origin),
    ensures
        0 <= chunk_distance(grid, origin) <= 219,
        is_int_sqrt(dist_sq(grid, origin_chunk(origin)), chunk_distance(grid, origin)),
{
    let oc = origin_chunk(origin);
    assert(-63 <= oc.x <= 63 && -63 <= oc.y <= 63 && -63 <= oc.z <= 63) by (nonlinear_arith)
        requires
            -4096 < origin.x < 4096,
            -4096 < origin.y < 4096,
            -4096 < origin.z < 4096,
            oc == origin_chunk(origin),
    ;
    let d2 = dist_sq(grid, oc);
    assert(0 <= d2 <= 48387) by (nonlinear_arith)
        requires
            -64 <= grid.x < 64 && -64 <= grid.y < 64 && -64 <= grid.z < 64,
            -63 <= oc.x <= 63 && -63 <= oc.y <= 63 && -63 <= oc.z <= 63,
            d2 == dist_sq(grid, oc),
    ;
    lemma_int_sqrt_exists(d2);
    assert(int_sqrt(d2) <= 219) by (nonlinear_arith)
        requires
            is_int_sqrt(d2, int_sqrt(d2)),
            d2 <= 48387,
    ;
}

/// The grid coordinates of `a` at truncated distance `d` from the
/// reference point, in the order they appear in `a`.
pub open spec fn actives_at_distance(a: Seq<IVec3>, origin: IVec3, d: int) -> Seq<IVec3>
    decreases a.len(),
{
    if a.len() == 0 {
        Seq::empty()
    } else {
        let rest = actives_at_distance(a.drop_last(), origin, d);
        if chunk_distance(a.last(), origin) == d {
            rest.push(a.last())
        } else {
            rest
        }
    }
}

/// The grid coordinates of `a` at truncated distance at most `d`,
/// nearest first; coordinates at equal distance keep their order in `a`.
pub open spec fn sorted_actives_upto(a: Seq<IVec3>, origin: IVec3, d: int) -> Seq<IVec3>
    decreases d + 1,
{
    if d < 0 {
        Seq::empty()
    } else {
        sorted_actives_upto(a, origin, d - 1) + actives_at_distance(a, origin, d)
    }
}

/// The grid coordinates of `a` ordered by truncated distance from the
/// reference point, nearest first. Distances of in-bounds chunks never
/// exceed 219.
pub open spec fn sorted_actives(a: Seq<IVec3>, origin: IVec3) -> Seq<IVec3> {
    sorted_actives_upto(a, origin, 219)
}

/// Every coordinate selected at distance `d` is at distance `d`, and is
/// one of the coordinates of `a`.
pub proof fn lemma_at_distance_elems(a: Seq<IVec3>, origin: IVec3, d: int, k: int)
    requires
        0 <= k < actives_at_distance(a, origin, d).len(),
    ensures
        chunk_distance(actives_at_distance(a, origin, d)[k], origin) == d,
        a.contains(actives_at_distance(a, origin, d)[k]),
    decreases a.len(),
{
    let sel = actives_at_distance(a, origin, d);
    let rest = actives_at_distance(a.drop_last(), origin, d);
    if k < rest.len() {
        lemma_at_distance_elems(a.drop_last(), origin, d, k);
        let w = choose|w: int| 0 <= w < a.drop_last().len() && a.drop_last()[w] == rest[k];
        assert(a[w] == sel[k]);
    } else {
        assert(sel[k] == a.last());
        assert(a[a.len() - 1] == a.last());
    }
}

/// Every coordinate ordered up to distance `d` is at distance at most
/// `d`, and is one of the coordinates of `a`.
pub proof fn lemma_upto_elems(a: Seq<IVec3>, origin: IVec3, d: int, k: int)
    requires
        0 <= k < sorted_actives_upto(a, origin, d).len(),
    ensures
        chunk_distance(sorted_actives_upto(a, origin, d)[k], origin) <= d,
        a.contains(sorted_actives_upto(a, origin, d)[k]),
    decreases d + 1,
{
    let s = sorted_actives_upto(a, origin, d);
    let prev = sorted_actives_upto(a, origin, d - 1);
    if k < prev.len() {
        lemma_upto_elems(a, origin, d - 1, k);
    } else {
        lemma_at_distance_elems(a, origin, d, k - prev.len());
    }
}

/// Distance ordering: the chunk order `to_instances` emits its blocks in
/// is non-decreasing in truncated chunk distance from the reference
/// point.
pub proof fn lemma_distance_ordering(a: Seq<IVec3>, origin: IVec3, i: int, j: int)
    requires
        0 <= i <= j < sorted_actives(a, origin).len(),
    ensures
        chunk_distance(sorted_actives(a, origin)[i], origin) <= chunk_distance(
            sorted_actives(a, origin)[j],
            origin,
        ),
{
    lemma_upto_sorted(a, origin, 219, i, j);
}

proof fn lemma_upto_sorted(a: Seq<IVec3>, origin: IVec3, d: int, i: int, j: int)
    requires
        0 <= i <= j < sorted_actives_upto(a, origin, d).len(),
    ensures
        chunk_distance(sorted_actives_upto(a, origin, d)[i], origin) <= chunk_distance(
            sorted_actives_upto(a, origin, d)[j],
            origin,
        ),
    decreases d + 1,
{
    let prev = sorted_actives_upto(a, origin, d - 1);
    if j < prev.len() {
        lemma_upto_sorted(a, origin, d - 1, i, j);
    } else {
        lemma_at_distance_elems(a, origin, d, j - prev.len());
        if i < prev.len() {
            lemma_upto_elems(a, origin, d - 1, i);
        } else {
            lemma_at_distance_elems(a, origin, d, i - prev.len());
        }
    }
}

proof fn lemma_at_distance_push(a: Seq<IVec3>, g: IVec3, origin: IVec3, d: int)
    ensures
        chunk_distance(g, origin) == d ==> actives_at_distance(a.push(g), origin, d)
            == actives_at_distance(a, origin, d).push(g),
        chunk_distance(g, origin) != d ==> actives_at_distance(a.push(g), origin, d)
            == actives_at_distance(a, origin, d),
{
    assert(a.push(g).drop_last() =~= a);
    assert(a.push(g).last() == g);
}

proof fn lemma_upto_push_below(a: Seq<IVec3>, g: IVec3, origin: IVec3, hi: int)
    requires
        chunk_distance(g, origin) > hi,
    ensures
        sorted_actives_upto(a.push(g), origin, hi) == sorted_actives_upto(a, origin, hi),
    decreases hi + 1,
{
    if hi >= 0 {
        lemma_upto_push_below(a, g, origin, hi - 1);
        lemma_at_distance_push(a, g, origin, hi);
    }
}

proof fn lemma_upto_push(a: Seq<IVec3>, g: IVec3, origin: IVec3, hi: int)
    requires
        0 <= chunk_distance(g, origin) <= hi,
    ensures
        sorted_actives_upto(a.push(g), origin, hi).to_multiset() == sorted_actives_upto(
            a,
            origin,
            hi,
        ).to_multiset().insert(g),
    decreases hi + 1,
{
    broadcast use vstd::seq_lib::lemma_multiset_commutative;

    let d = chunk_distance(g, origin);
    let prev_new = sorted_actives_upto(a.push(g), origin, hi - 1);
    let prev_old = sorted_actives_upto(a, origin, hi - 1);
    let at_new = actives_at_distance(a.push(g), origin, hi);
    let at_old = actives_at_distance(a, origin, hi);
    lemma_at_distance_push(a, g, origin, hi);
    if d == hi {
        lemma_upto_push_below(a, g, origin, hi - 1);
        assert(at_new == at_old.push(g));
        at_old.to_multiset_ensures();
        assert(at_new.to_multiset() =~= at_old.to_multiset().insert(g));
        assert((prev_old + at_new).to_multiset() =~= (prev_old + at_old).to_multiset().insert(g));
    } else {
        lemma_upto_push(a, g, origin, hi - 1);
        assert(at_new == at_old);
        assert((prev_new + at_old).to_multiset() =~= (prev_old + at_old).to_multiset().insert(g));
    }
}

proof fn lemma_upto_empty(origin: IVec3, hi: int)
    ensures
        sorted_actives_upto(Seq::<IVec3>::empty(), origin, hi) == Seq::<IVec3>::empty(),
    decreases hi + 1,
{
    if hi >= 0 {
        lemma_upto_empty(origin, hi - 1);
        assert(actives_at_distance(Seq::<IVec3>::empty(), origin, hi) == Seq::<IVec3>::empty());
        assert(Seq::<IVec3>::empty() + Seq::<IVec3>::empty() =~= Seq::<IVec3>::empty());
    }
}

/// The distance ordering is a permutation: it holds exactly the
/// coordinates of `a`, with their multiplicities, when every coordinate's
/// distance is in range.
pub proof fn lemma_sorted_actives_permutation(a: Seq<IVec3>, origin: IVec3)
    requires
        forall|k: int| 0 <= k < a.len() ==> 0 <= chunk_distance(#[trigger] a[k], origin) <= 219,
    ensures
        sorted_actives(a, origin).to_multiset() == a.to_multiset(),
    decreases a.len(),
{
    if a.len() == 0 {
        lemma_upto_empty(origin, 219);
        assert(a =~= Seq::<IVec3>::empty());
    } else {
        let b = a.drop_last();
        let g = a.last();
        assert(a =~= b.push(g));
        assert forall|k: int| 0 <= k < b.len() implies 0 <= chunk_distance(
            #[trigger] b[k],
            origin,
        ) <= 219 by {
            assert(b[k] == a[k]);
        }
        assert(0 <= chunk_distance(a[a.len() - 1], origin) <= 219);
        lemma_sorted_actives_permutation(b, origin);
        lemma_upto_push(b, g, origin, 219);
        b.to_multiset_ensures();
    }
}

/// In a well-formed world seen from a reference point inside it, the
/// chunk order `to_instances` emits is a permutation of the active
/// chunks.
pub proof fn lemma_world_order_permutation(w: &Chunks, origin: IVec3)
    requires
        w.wf(),
        in_world_bounds(origin),
    ensures
        sorted_actives(active_seq(w.chunk_seq()), origin).to_multiset() == active_seq(
            w.chunk_seq(),
        ).to_multiset(),
{
    let a = active_seq(w.chunk_seq());
    assert forall|k: int| 0 <= k < a.len() implies 0 <= chunk_distance(
        #[trigger] a[k],
        origin,
    ) <= 219 by {
        lemma_active_seq_elem(w.chunk_seq(), k);
        let i = choose|i: int| 0 <= i < w.chunk_seq().len() && w.chunk_seq()[i].0 == a[k];
        assert(in_grid_bounds(w.chunk_seq()[i].0));
        lemma_chunk_distance_bounds(a[k], origin);
    }
    lemma_sorted_actives_permutation(a, origin);
}

/// LOD stride filter: every record a chunk emits at a level of detail
/// comes from an entry all of whose local coordinates are multiples of
/// the stride `2^lod`.
pub proof fn lemma_lod_stride_filter(
    entries: Seq<(UVec3, HostVoxel)>,
    visible: bool,
    lod: u32,
    grid: IVec3,
    blas: u64,
    k: int,
)
    requires
        0 <= k < chunk_records(entries, visible, lod, grid, blas).len(),
    ensures
        exists|i: int|
            0 <= i < entries.len() && stride_keeps(#[trigger] entries[i].0, lod) && chunk_records(
                entries,
                visible,
                lod,
                grid,
                blas,
            )[k] == voxel_record(entries[i].0, entries[i].1, visible, lod, grid, blas),
    decreases entries.len(),
{
    let recs = chunk_records(entries, visible, lod, grid, blas);
    let rest = chunk_records(entries.drop_last(), visible, lod, grid, blas);
    if k < rest.len() {
        lemma_lod_stride_filter(entries.drop_last(), visible, lod, grid, blas, k);
        let i = choose|i: int|
            0 <= i < entries.drop_last().len() && stride_keeps(
                #[trigger] entries.drop_last()[i].0,
                lod,
            ) && rest[k] == voxel_record(
                entries.drop_last()[i].0,
                entries.drop_last()[i].1,
                visible,
                lod,
                grid,
                blas,
            );
        assert(entries[i] == entries.drop_last()[i]);
        assert(stride_keeps(entries[i].0, lod));
    } else {
        let n = entries.len() - 1;
        assert(entries[n] == entries.last());
        assert(stride_keeps(entries[n].0, lod));
    }
}

/// LOD stride filter, counting half: filtering at any level of detail
/// emits no more records than level zero, which keeps every voxel.
pub proof fn lemma_lod_filter_count(
    entries: Seq<(UVec3, HostVoxel)>,
    visible: bool,
    lod: u32,
    grid: IVec3,
    blas: u64,
)
    ensures
        chunk_records(entries, visible, lod, grid, blas).len() <= chunk_records(
            entries,
            visible,
            0,
            grid,
            blas,
        ).len(),
        chunk_records(entries, visible, 0, grid, blas).len() == entries.len(),
    decreases entries.len(),
{
    vstd::arithmetic::power2::lemma2_to64();
    if entries.len() > 0 {
        lemma_lod_filter_count(entries.drop_last(), visible, lod, grid, blas);
        assert(stride_keeps(entries.last().0, 0));
    }
}

/// LOD stride filter over the whole instance array: at any level of
/// detail, the chunks named by `order` contribute no more records than
/// at level zero.
pub proof fn lemma_lod_output_count(order: Seq<IVec3>, s: Seq<(IVec3, Chunk)>, lod: u32, blas: u64)
    ensures
        flat_records(order, s, lod, blas).len() <= flat_records(order, s, 0, blas).len(),
    decreases order.len(),
{
    if order.len() > 0 {
        lemma_lod_output_count(order.drop_last(), s, lod, blas);
        let c = chunk_at(s, order.last());
        lemma_lod_filter_count(c.entries(), c.visible_spec(), lod, order.last(), blas);
    }
}

/// LOD stride filter over the whole instance array: every record in the
/// array comes from a voxel of one of the chunks named by `order`, all
/// of whose local coordinates are multiples of the stride `2^lod`.
pub proof fn lemma_flat_stride_provenance(
    order: Seq<IVec3>,
    s: Seq<(IVec3, Chunk)>,
    lod: u32,
    blas: u64,
    k: int,
)
    requires
        0 <= k < flat_records(order, s, lod, blas).len(),
    ensures
        exists|b: int, i: int|
            {
                &&& 0 <= b < order.len()
                &&& 0 <= i < chunk_at(s, order[b]).entries().len()
                &&& stride_keeps(#[trigger] chunk_at(s, order[b]).entries()[i].0, lod)
                &&& flat_records(order, s, lod, blas)[k] == voxel_record(
                    chunk_at(s, order[b]).entries()[i].0,
                    chunk_at(s, order[b]).entries()[i].1,
                    chunk_at(s, order[b]).visible_spec(),
                    lod,
                    order[b],
                    blas,
                )
            },
    decreases order.len(),
{
    let flat = flat_records(order, s, lod, blas);
    let prefix = flat_records(order.drop_last(), s, lod, blas);
    if k < prefix.len() {
        lemma_flat_stride_provenance(order.drop_last(), s, lod, blas, k);
        let (b, i) = choose|b: int, i: int|
            {
                &&& 0 <= b < order.drop_last().len()
                &&& 0 <= i < chunk_at(s, order.drop_last()[b]).entries().len()
                &&& stride_keeps(
                    #[trigger] chunk_at(s, order.drop_last()[b]).entries()[i].0,
                    lod,
                )
                &&& prefix[k] == voxel_record(
                    chunk_at(s, order.drop_last()[b]).entries()[i].0,
                    chunk_at(s, order.drop_last()[b]).entries()[i].1,
                    chunk_at(s, order.drop_last()[b]).visible_spec(),
                    lod,
                    order.drop_last()[b],
                    blas,
                )
            };
        assert(order[b] == order.drop_last()[b]);
        assert(flat[k] == prefix[k]);
        let c = chunk_at(s, order[b]);
        assert(stride_keeps(c.entries()[i].0, lod));
    } else {
        let b = order.len() - 1;
        let c = chunk_at(s, order.last());
        let block = chunk_records(c.entries(), c.visible_spec(), lod, order.last(), blas);
        lemma_lod_stride_filter(c.entries(), c.visible_spec(), lod, order.last(), blas, k
            - prefix.len());
        let i = choose|i: int|
            0 <= i < c.entries().len() && stride_keeps(#[trigger] c.entries()[i].0, lod) && block[k
                - prefix.len()] == voxel_record(
                c.entries()[i].0,
                c.entries()[i].1,
                c.visible_spec(),
                lod,
                order.last(),
                blas,
            );
        assert(order[b] == order.last());
        assert(flat[k] == block[k - prefix.len()]);
        assert(stride_keeps(chunk_at(s, order[b]).entries()[i].0, lod));
    }
}

/// Capacity truncation: the instance array keeps exactly the first
/// `max_count` records when more are available, and all of them
/// otherwise.
pub proof fn lemma_capacity_truncation(s: Seq<InstanceRecord>, m: int)
    requires
        0 <= m,
    ensures
        s.len() > m ==> trunc_records(s, m).len() == m,
        s.len() <= m ==> trunc_records(s, m) == s,
        forall|k: int| 0 <= k < trunc_records(s, m).len() ==> trunc_records(s, m)[k] == s[k],
{
}

/// The records contributed by the chunks of `s` named by `order`, one
/// block per chunk, in order.
pub open spec fn flat_records(
    order: Seq<IVec3>,
    s: Seq<(IVec3, Chunk)>,
    lod: u32,
    blas: u64,
) -> Seq<InstanceRecord>
    decreases order.len(),
{
    if order.len() == 0 {
        Seq::empty()
    } else {
        flat_records(order.drop_last(), s, lod, blas) + chunk_records(
            chunk_at(s, order.last()).entries(),
            chunk_at(s, order.last()).visible_spec(),
            lod,
            order.last(),
            blas,
        )
    }
}

proof fn lemma_flat_records_push(
    order: Seq<IVec3>,
    g: IVec3,
    s: Seq<(IVec3, Chunk)>,
    lod: u32,
    blas: u64,
)
    ensures
        flat_records(order.push(g), s, lod, blas) == flat_records(order, s, lod, blas)
            + chunk_records(
            chunk_at(s, g).entries(),
            chunk_at(s, g).visible_spec(),
            lod,
            g,
            blas,
        ),
{
    assert(order.push(g).drop_last() =~= order);
    assert(order.push(g).last() == g);
}

/// The first `m` records of `s`, or all of them when there are no more
/// than `m`.
pub open spec fn trunc_records(s: Seq<InstanceRecord>, m: int) -> Seq<InstanceRecord> {
    if s.len() <= m {
        s
    } else {
        s.take(m)
    }
}

proof fn lemma_trunc_push(s: Seq<InstanceRecord>, e: InstanceRecord, m: int)
    requires
        m >= 0,
    ensures
        s.len() < m ==> trunc_records(s.push(e), m) == trunc_records(s, m).push(e),
        s.len() >= m ==> trunc_records(s.push(e), m) == trunc_records(s, m),
{
    if s.len() < m {
        assert(trunc_records(s.push(e), m) =~= trunc_records(s, m).push(e));
    } else {
        assert(s.push(e).take(m) =~= trunc_records(s, m));
    }
}

/// Every element of `active_seq(s)` is the grid coordinate of a stored
/// chunk.
proof fn lemma_active_seq_elem(s: Seq<(IVec3, Chunk)>, k: int)
    requires
        0 <= k < active_seq(s).len(),
    ensures
        has_grid(s, active_seq(s)[k]),
    decreases s.len(),
{
    let a = active_seq(s);
    let rest = active_seq(s.drop_last());
    if k < rest.len() {
        lemma_active_seq_elem(s.drop_last(), k);
        let w = choose|w: int| 0 <= w < s.drop_last().len() && s.drop_last()[w].0 == rest[k];
        assert(s[w].0 == a[k]);
    } else {
        assert(a[k] == s.last().0);
        assert(s[s.len() - 1].0 == a[k]);
    }
}

/// The global coordinate of a voxel at local coordinate `local` of the
/// chunk at grid coordinate `grid`.
pub open spec fn global_of(grid: IVec3, local: UVec3) -> IVec3 {
    IVec3 {
        x: (64 * grid.x + local.x) as i32,
        y: (64 * grid.y + local.y) as i32,
        z: (64 * grid.z + local.z) as i32,
    }
}

/// `global_of` inverts the split into chunk-grid and local coordinates.
pub proof fn lemma_global_of_inverse(grid: IVec3, local: UVec3)
    requires
        in_grid_bounds(grid),
        in_chunk_bounds(local),
    ensures
        grid_of(global_of(grid, local)) == grid,
        local_of(global_of(grid, local)) == local,
{
    let p = global_of(grid, local);
    assert(p.x == 64 * grid.x + local.x);
    assert(p.y == 64 * grid.y + local.y);
    assert(p.z == 64 * grid.z + local.z);
    vstd::arithmetic::div_mod::lemma_fundamental_div_mod_converse(
        p.x as int,
        64,
        grid.x as int,
        local.x as int,
    );
    vstd::arithmetic::div_mod::lemma_fundamental_div_mod_converse(
        p.y as int,
        64,
        grid.y as int,
        local.y as int,
    );
    vstd::arithmetic::div_mod::lemma_fundamental_div_mod_converse(
        p.z as int,
        64,
        grid.z as int,
        local.z as int,
    );
}

/// Coordinate transform round trip: for every global coordinate inside
/// the world volume, the chunk origin plus the local coordinate is the
/// global coordinate again, and both parts lie in their bounds.
pub proof fn lemma_coordinate_round_trip(p: IVec3)
    requires
        in_world_bounds(p),
    ensures
        global_of(grid_of(p), local_of(p)) == p,
        in_grid_bounds(grid_of(p)),
        in_chunk_bounds(local_of(p)),
{
    lemma_axis_div_mod_bounds(p.x);
    lemma_axis_div_mod_bounds(p.y);
    lemma_axis_div_mod_bounds(p.z);
    assert(-64 <= p.x as int / 64 < 64 && -64 <= p.y as int / 64 < 64 && -64 <= p.z as int / 64
        < 64) by (nonlinear_arith)
        requires
            -4096 < p.x < 4096,
            -4096 < p.y < 4096,
            -4096 < p.z < 4096,
            p.x as int == 64 * (p.x as int / 64) + (p.x as int % 64),
            p.y as int == 64 * (p.y as int / 64) + (p.y as int % 64),
            p.z as int == 64 * (p.z as int / 64) + (p.z as int % 64),
            0 <= p.x as int % 64 < 64,
            0 <= p.y as int % 64 < 64,
            0 <= p.z as int % 64 < 64,
    ;
}

/// Occupancy uniqueness: in a well-formed world, a global coordinate is
/// held by at most one entry of at most one stored chunk.
pub proof fn lemma_occupancy_unique(w: &Chunks, i1: int, j1: int, i2: int, j2: int)
    requires
        w.wf(),
        0 <= i1 < w.chunk_seq().len(),
        0 <= j1 < w.chunk_seq()[i1].1.entries().len(),
        0 <= i2 < w.chunk_seq().len(),
        0 <= j2 < w.chunk_seq()[i2].1.entries().len(),
        global_of(w.chunk_seq()[i1].0, w.chunk_seq()[i1].1.entries()[j1].0) == global_of(
            w.chunk_seq()[i2].0,
            w.chunk_seq()[i2].1.entries()[j2].0,
        ),
    ensures
        i1 == i2,
        j1 == j2,
{
    let s = w.chunk_seq();
    lemma_global_of_inverse(s[i1].0, s[i1].1.entries()[j1].0);
    lemma_global_of_inverse(s[i2].0, s[i2].1.entries()[j2].0);
    if i1 != i2 {
        if i1 < i2 {
            assert(s[i1].0 != s[i2].0);
        } else {
            assert(s[i2].0 != s[i1].0);
        }
    }
    if j1 != j2 {
        if j1 < j2 {
            assert(s[i1].1.entries()[j1].0 != s[i1].1.entries()[j2].0);
        } else {
            assert(s[i1].1.entries()[j2].0 != s[i1].1.entries()[j1].0);
        }
    }
}

impl Default for Chunk {
    /// A chunk starts visible and empty.
    fn default() -> (r: Chunk)
        ensures
            r.wf(),
            r.visible_spec(),
            r.entries().len() == 0,
    {
        Chunk { visible: true, entries: Vec::new(), index: HashMap::new() }
    }
}

} // verus!
