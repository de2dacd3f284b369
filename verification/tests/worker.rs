use a_tlas::async_worker::{render_graph, worker_graph, HostAccessKind, QueueFamilyType};
use a_tlas::math::IVec3;
use a_tlas::physics::PhysicsController;
use a_tlas::rt::acceleration_structure::{
    blas_build_steps, tlas_build_steps, worker_rebuild_steps, BuildMode, BuildSizes, BuildStep,
    InstanceRecord, StructureType,
};
use a_tlas::tasks::render::bind_front_buffer;
use a_tlas::tasks::update_as::{UpdateWorker, WorkerAction, WorkerEvent, WorkerState};
use a_tlas::tasks::SelectionState;
use a_tlas::world::chunk::Chunks;
use a_tlas::world::voxel::triangles_from_box;
use a_tlas::world::HostVoxel;

/// One full worker cycle over a simulated frame counter and two instance
/// buffers. Two TLAS copies start identical with instance count 0 and the
/// selection at `false`; after one cycle the selection reads `true` and
/// copy `true`'s instance buffer differs from copy `false`'s.
#[test]
fn worker_cycle_swaps_and_writes_back_buffer() {
    let mut selection = SelectionState::new();
    assert!(!selection.current_index);

    let mut worker = UpdateWorker::new();
    let mut buffers: [Vec<InstanceRecord>; 2] = [Vec::new(), Vec::new()];
    assert_eq!(buffers[0], buffers[1]);

    let mut world = Chunks::new();
    world.insert_voxel(IVec3::new(3, 2, 1), HostVoxel { material_index: 5, scale_sixteenths: 16 });
    let instances = world.to_instances(0, &IVec3::new(0, 0, 0), 42, 1000);

    let action = worker.step(WorkerEvent::Wake, &mut selection);
    assert_eq!(action, WorkerAction::PollFrameCounter);

    // The frame counter has not advanced past the baseline yet.
    let action = worker.step(WorkerEvent::FrameCounter { frame: 0 }, &mut selection);
    assert_eq!(action, WorkerAction::PollFrameCounter);

    // It advances; the worker then waits for the baseline frame to retire.
    let action = worker.step(WorkerEvent::FrameCounter { frame: 1 }, &mut selection);
    assert_eq!(action, WorkerAction::AwaitFrame { frame: 0 });

    let action = worker.step(WorkerEvent::FrameRetired, &mut selection);
    let back = match action {
        WorkerAction::WriteInstances { index } => index,
        other => panic!("expected a write action, got {other:?}"),
    };
    // Double-buffer exclusivity: the copy being written is never the
    // published one.
    assert!(back != selection.current_index);
    assert!(back);
    buffers[back as usize] = instances.clone();

    let action = worker.step(WorkerEvent::InstancesWritten, &mut selection);
    assert_eq!(action, WorkerAction::SubmitRebuild { index: true });
    assert!(back != selection.current_index);

    let action = worker.step(WorkerEvent::RebuildSubmitted, &mut selection);
    assert_eq!(action, WorkerAction::AwaitComputeIdle);
    assert!(back != selection.current_index);

    let action = worker.step(WorkerEvent::ComputeIdle { frame: 2 }, &mut selection);
    assert_eq!(action, WorkerAction::Publish { index: true });
    // Still unpublished while the publish is being performed.
    assert!(back != selection.current_index);
    assert_eq!(worker.state, WorkerState::PublishSwap);

    let action = worker.step(WorkerEvent::SwapPublished, &mut selection);
    assert_eq!(action, WorkerAction::AwaitWake);
    assert!(selection.current_index);
    assert!(selection.show_current_index);

    // Copy `true` now differs from copy `false`.
    assert_ne!(buffers[0], buffers[1]);
    assert_eq!(buffers[1].len(), 1);

    // Frame-advance gating: the baseline strictly advanced this cycle.
    assert_eq!(worker.last_frame, 2);

    // The render thread binds the published copy and consumes the flag.
    let front = bind_front_buffer(&mut selection);
    assert!(front);
    assert!(!selection.show_current_index);
    assert!(selection.current_index);
}

/// The baseline advances strictly on every cycle, never staying put.
#[test]
fn worker_baseline_strictly_monotonic() {
    let mut selection = SelectionState::new();
    let mut worker = UpdateWorker::new();
    let mut frame: u64 = 0;
    let mut previous_baseline = worker.last_frame;

    for _ in 0..3 {
        worker.step(WorkerEvent::Wake, &mut selection);
        frame += 1;
        worker.step(WorkerEvent::FrameCounter { frame }, &mut selection);
        worker.step(WorkerEvent::FrameRetired, &mut selection);
        assert_eq!(worker.state, WorkerState::WriteInstanceData);
        worker.step(WorkerEvent::InstancesWritten, &mut selection);
        worker.step(WorkerEvent::RebuildSubmitted, &mut selection);
        frame += 1;
        worker.step(WorkerEvent::ComputeIdle { frame }, &mut selection);
        worker.step(WorkerEvent::SwapPublished, &mut selection);
        assert_eq!(worker.state, WorkerState::Idle);
        assert!(worker.last_frame > previous_baseline);
        previous_baseline = worker.last_frame;
    }
    // Two cycles flip the selection twice: back to false, then true.
    assert!(selection.current_index);
}

/// An event the current state is not waiting for changes nothing; wakes
/// coalesce.
#[test]
fn worker_ignores_unexpected_events() {
    let mut selection = SelectionState::new();
    let mut worker = UpdateWorker::new();

    let action = worker.step(WorkerEvent::FrameRetired, &mut selection);
    assert_eq!(worker.state, WorkerState::Idle);
    assert_eq!(action, WorkerAction::AwaitWake);

    worker.step(WorkerEvent::Wake, &mut selection);
    let action = worker.step(WorkerEvent::Wake, &mut selection);
    assert_eq!(worker.state, WorkerState::WaitForFrameAdvance);
    assert_eq!(action, WorkerAction::PollFrameCounter);

    // Retirement before any counter advance keeps the worker polling.
    let action = worker.step(WorkerEvent::FrameRetired, &mut selection);
    assert_eq!(worker.state, WorkerState::WaitForFrameAdvance);
    assert_eq!(action, WorkerAction::PollFrameCounter);
}

#[test]
fn physics_steps_at_most_once_per_tick() {
    // One tick per second: a step is due only after more than a second.
    let mut controller = PhysicsController::new(0);
    controller.request_update(1_000_000);
    // Exactly one second is not *more* than one second: no step yet.
    assert_eq!(controller.last_update_micros(), 0);
    // Just over a second: steps.
    controller.request_update(1_000_001);
    assert_eq!(controller.last_update_micros(), 1_000_001);
    // Half a second later: no step.
    controller.request_update(1_500_000);
    assert_eq!(controller.last_update_micros(), 1_000_001);
    // More than a second after the last step: steps again.
    controller.request_update(2_000_002);
    assert_eq!(controller.last_update_micros(), 2_000_002);
}

#[test]
fn graphs_for_worker_and_renderer() {
    // The worker compiles one compute node with host write access to the
    // instance buffer and no ordering edges.
    let worker = worker_graph(7);
    assert_eq!(worker.queue_families(), &vec![QueueFamilyType::Compute]);
    assert!(worker.ordering_edges().is_empty());
    assert_eq!(worker.host_buffer_accesses(), &vec![(7, HostAccessKind::Write)]);

    // The render loop compiles the ray-tracing node, the update node, and
    // an edge putting the update after the renderer.
    let render = render_graph(9);
    assert_eq!(
        render.queue_families(),
        &vec![QueueFamilyType::Graphics, QueueFamilyType::Compute]
    );
    assert_eq!(render.ordering_edges(), &vec![(0, 1)]);
    assert_eq!(render.host_buffer_accesses(), &vec![(9, HostAccessKind::Write)]);
}

#[test]
fn build_steps_allocate_then_build_then_wait() {
    let sizes = BuildSizes { acceleration_structure_size: 4096, build_scratch_size: 1024 };
    let steps = blas_build_steps(36, sizes);
    assert_eq!(
        steps,
        vec![
            BuildStep::AllocateScratch { size: 1024 },
            BuildStep::AllocateStorage { size: 4096 },
            BuildStep::CreateStructure { ty: StructureType::BottomLevel },
            BuildStep::RecordBuild { mode: BuildMode::Build, primitive_count: 12 },
            BuildStep::Submit,
            BuildStep::WaitFlightIdle,
        ]
    );

    let steps = tlas_build_steps(1000, sizes);
    assert_eq!(steps[2], BuildStep::CreateStructure { ty: StructureType::TopLevel });
    assert_eq!(
        steps[3],
        BuildStep::RecordBuild { mode: BuildMode::Build, primitive_count: 1000 }
    );
    assert_eq!(steps[5], BuildStep::WaitFlightIdle);
}

#[test]
fn worker_rebuild_is_incremental_update() {
    // The worker's rebuild of the back-buffer TLAS is an incremental
    // update — never a full build — so prior BLAS references are reused,
    // and it still ends with the idle wait before publication.
    let sizes = BuildSizes { acceleration_structure_size: 2048, build_scratch_size: 512 };
    let steps = worker_rebuild_steps(sizes, 1000);
    assert_eq!(
        steps,
        vec![
            BuildStep::AllocateScratch { size: 512 },
            BuildStep::AllocateStorage { size: 2048 },
            BuildStep::CreateStructure { ty: StructureType::TopLevel },
            BuildStep::RecordBuild { mode: BuildMode::Update, primitive_count: 1000 },
            BuildStep::Submit,
            BuildStep::WaitFlightIdle,
        ]
    );
}

#[test]
fn unit_box_mesh() {
    let vertices = triangles_from_box(IVec3::new(0, 0, 0));
    assert_eq!(vertices.len(), 36);
    // Every coordinate is half a voxel from the center.
    for v in &vertices {
        assert_eq!(v.position_halves.x.abs(), 1);
        assert_eq!(v.position_halves.y.abs(), 1);
        assert_eq!(v.position_halves.z.abs(), 1);
    }
    // The first face is the left one: all its vertices share x = -1.
    for v in &vertices[0..6] {
        assert_eq!(v.position_halves.x, -1);
    }
    // A shifted box keeps its shape around the new center.
    let shifted = triangles_from_box(IVec3::new(10, -4, 2));
    assert_eq!(shifted.len(), 36);
    assert_eq!(shifted[0].position_halves, IVec3::new(9, -5, 1));
}
