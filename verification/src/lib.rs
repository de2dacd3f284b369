//! Core of a double-buffered voxel ray tracer.
//!
//! The library holds the verified heart of the renderer: a sparse, chunked
//! voxel index that produces distance-ordered instance records for a
//! top-level acceleration structure, the build planning for acceleration
//! structures, the task-graph descriptions that sequence GPU work, and the
//! state machine of the background worker that rebuilds the back-buffer
//! TLAS and flips the shared selection index once the GPU is idle.

use vstd::prelude::*;

pub mod async_worker;
pub mod math;
pub mod physics;
pub mod rt;
pub mod tasks;
pub mod world;

verus! {

/// How many frames the render flight keeps in flight at once.
pub const MAX_FRAMES_IN_FLIGHT: u32 = 2;

/// The swapchain needs one image more than the frames in flight.
pub const MIN_SWAPCHAIN_IMAGES: u32 = MAX_FRAMES_IN_FLIGHT + 1;

/// Rate of the fixed-step physics stub, in steps per second.
pub const TICKS_PER_SECOND: u32 = 1;

} // verus!
