//! Instance records and the synchronous build procedure for acceleration
//! structures.
//!
//! A build allocates scratch and storage memory sized by a device query,
//! records one build command, submits it, and blocks until the owning
//! flight reports idle. The procedure is laid out here as a plan — an
//! exact sequence of steps — that the GPU layer executes in order; the
//! last step is always the idle wait, so a caller holding the finished
//! structure knows its build has fully retired.

use vstd::prelude::*;

use crate::math::IVec3;

verus! {

/// Pack a material index (low 24 bits) and a visibility mask (high
/// 8 bits) into one word.
pub open spec fn pack_index_mask(index: u32, mask: u32) -> u32
    recommends
        mask <= 0xFF,
{
    ((index as int % 0x0100_0000) + (mask as int) * 0x0100_0000) as u32
}

pub fn pack_index_mask_exec(index: u32, mask: u32) -> (r: u32)
    requires
        mask <= 0xFF,
    ensures
        r == pack_index_mask(index, mask),
{
    index % 0x0100_0000 + mask * 0x0100_0000
}

/// One entry of a TLAS instance array: a uniform-scale-plus-translation
/// transform held exactly — the scale in sixteenths of a voxel, the
/// translation in half-voxel units — a packed material index and
/// visibility mask, and the device address of the shared BLAS.
#[derive(Clone, Copy, Debug, PartialEq, Eq, Structural)]
pub struct InstanceRecord {
    pub acceleration_structure_reference: u64,
    pub instance_custom_index_and_mask: u32,
    pub translation_halves: IVec3,
    pub scale_sixteenths: u64,
}

/// Which level of the acceleration-structure hierarchy is built.
#[derive(Clone, Copy, Debug, PartialEq, Eq, Structural)]
pub enum StructureType {
    TopLevel,
    BottomLevel,
}

/// Whether the command rebuilds the structure from scratch or updates it
/// in place, reusing prior BLAS references.
#[derive(Clone, Copy, Debug, PartialEq, Eq, Structural)]
pub enum BuildMode {
    Build,
    Update,
}

/// The sizes the device reports for a build: how large the structure's
/// own storage and the build scratch memory must be.
#[derive(Clone, Copy, Debug, PartialEq, Eq, Structural)]
pub struct BuildSizes {
    pub acceleration_structure_size: u64,
    pub build_scratch_size: u64,
}

/// One step of the synchronous build procedure.
#[derive(Clone, Copy, Debug, PartialEq, Eq, Structural)]
pub enum BuildStep {
    AllocateScratch { size: u64 },
    AllocateStorage { size: u64 },
    CreateStructure { ty: StructureType },
    RecordBuild { mode: BuildMode, primitive_count: u32 },
    Submit,
    WaitFlightIdle,
}

/// The steps of one synchronous acceleration-structure build, given the
/// sizes the device reported for its geometry.
pub open spec fn build_procedure(
    sizes: BuildSizes,
    mode: BuildMode,
    primitive_count: u32,
    ty: StructureType,
) -> Seq<BuildStep> {
    seq![
        BuildStep::AllocateScratch { size: sizes.build_scratch_size },
        BuildStep::AllocateStorage { size: sizes.acceleration_structure_size },
        BuildStep::CreateStructure { ty },
        BuildStep::RecordBuild { mode, primitive_count },
        BuildStep::Submit,
        BuildStep::WaitFlightIdle,
    ]
}

/// Plan one synchronous build: allocate exactly the queried sizes, record
/// one build command, submit it, and wait for the flight to go idle
/// before the structure is handed out.
pub fn build_acceleration_structure_steps(
    sizes: BuildSizes,
    mode: BuildMode,
    primitive_count: u32,
    ty: StructureType,
) -> (r: Vec<BuildStep>)
    ensures
        r@ == build_procedure(sizes, mode, primitive_count, ty),
{
    let mut steps: Vec<BuildStep> = Vec::new();
    steps.push(BuildStep::AllocateScratch { size: sizes.build_scratch_size });
    steps.push(BuildStep::AllocateStorage { size: sizes.acceleration_structure_size });
    steps.push(BuildStep::CreateStructure { ty });
    steps.push(BuildStep::RecordBuild { mode, primitive_count });
    steps.push(BuildStep::Submit);
    steps.push(BuildStep::WaitFlightIdle);
    proof {
        assert(steps@ =~= build_procedure(sizes, mode, primitive_count, ty));
    }
    steps
}

/// Plan the one-time BLAS build from a triangle mesh: one primitive per
/// three vertices.
pub fn blas_build_steps(vertex_count: u32, sizes: BuildSizes) -> (r: Vec<BuildStep>)
    ensures
        r@ == build_procedure(
            sizes,
            BuildMode::Build,
            (vertex_count as int / 3) as u32,
            StructureType::BottomLevel,
        ),
{
    build_acceleration_structure_steps(
        sizes,
        BuildMode::Build,
        vertex_count / 3,
        StructureType::BottomLevel,
    )
}

/// Plan a full TLAS build from an instance array: one primitive per
/// instance.
pub fn tlas_build_steps(instance_count: u32, sizes: BuildSizes) -> (r: Vec<BuildStep>)
    ensures
        r@ == build_procedure(sizes, BuildMode::Build, instance_count, StructureType::TopLevel),
{
    build_acceleration_structure_steps(
        sizes,
        BuildMode::Build,
        instance_count,
        StructureType::TopLevel,
    )
}

/// Plan the update worker's rebuild of the back-buffer TLAS: an
/// incremental update — never a full build — so the prior BLAS
/// references are reused unchanged, with one primitive per instance in
/// the freshly written instance buffer.
pub fn worker_rebuild_steps(sizes: BuildSizes, instance_count: u32) -> (r: Vec<BuildStep>)
    ensures
        r@ == build_procedure(sizes, BuildMode::Update, instance_count, StructureType::TopLevel),
{
    build_acceleration_structure_steps(
        sizes,
        BuildMode::Update,
        instance_count,
        StructureType::TopLevel,
    )
}

/// Plan the one-time BLAS build from the unit box's single axis-aligned
/// bounding box.
pub fn aabb_blas_build_steps(sizes: BuildSizes) -> (r: Vec<BuildStep>)
    ensures
        r@ == build_procedure(sizes, BuildMode::Build, 1, StructureType::BottomLevel),
{
    build_acceleration_structure_steps(sizes, BuildMode::Build, 1, StructureType::BottomLevel)
}

} // verus!
