//! The double-buffered TLAS update worker, as a state machine.
//!
//! A background thread owns this machine and drives it with the events it
//! observes: wake signals, readings of the render flight's completed-frame
//! counter, and completions of the GPU work the machine asks for. Each
//! cycle the machine waits for the render thread to advance one frame past
//! the baseline observed at the end of the previous cycle, writes fresh
//! instance data into the TLAS copy that is *not* currently bound, submits
//! a structure update against it, blocks until the compute flight is idle,
//! and only then publishes the copy by flipping the shared selection
//! index. The render thread therefore never traces against a copy that is
//! being written, and the worker keeps at most one rebuild in flight.

use vstd::prelude::*;

use crate::tasks::SelectionState;

verus! {

/// Where the update worker stands in its cycle.
#[derive(Clone, Copy, Debug, PartialEq, Eq, Structural)]
pub enum WorkerState {
    /// Waiting for a wake signal; wakes coalesce, only their arrival
    /// matters.
    Idle,
    /// Polling the render flight's completed-frame counter until it
    /// passes the baseline, then waiting for the baseline frame to
    /// retire.
    WaitForFrameAdvance,
    /// Writing fresh instance data into the back buffer's instance
    /// memory.
    WriteInstanceData,
    /// Recording and submitting the structure update — an incremental
    /// update, never a full rebuild — against the back buffer.
    SubmitRebuild,
    /// Blocking until the compute flight reports idle; at most one
    /// rebuild is ever outstanding.
    WaitGpuIdle,
    /// Storing the back-buffer index into the shared selection and
    /// emitting the cycle's timing measurement.
    PublishSwap,
}

/// What the worker thread observed or completed, driving one step of the
/// machine. Frame counter readings come from the render flight's
/// monotone completed-frame counter, so successive readings never
/// decrease.
#[derive(Clone, Copy, Debug, PartialEq, Eq, Structural)]
pub enum WorkerEvent {
    /// A wake signal arrived on the notification channel.
    Wake,
    /// The render flight's completed-frame counter was read.
    FrameCounter { frame: u64 },
    /// The frame the machine asked to wait for has retired.
    FrameRetired,
    /// The back buffer's instance data has been written.
    InstancesWritten,
    /// The structure update has been recorded and submitted.
    RebuildSubmitted,
    /// The compute flight reported idle; carries a fresh reading of the
    /// render flight's frame counter.
    ComputeIdle { frame: u64 },
    /// The swap has been published to the shared selection.
    SwapPublished,
}

/// What the worker thread must do next.
#[derive(Clone, Copy, Debug, PartialEq, Eq, Structural)]
pub enum WorkerAction {
    /// Block on the notification channel.
    AwaitWake,
    /// Read the render flight's completed-frame counter, after a bounded
    /// sleep.
    PollFrameCounter,
    /// Wait until the given frame index retires, with a bounded wait.
    AwaitFrame { frame: u64 },
    /// Write fresh instance data into the given TLAS copy's instance
    /// buffer.
    WriteInstances { index: bool },
    /// Record and submit the structure update against the given copy:
    /// the plan of `crate::rt::acceleration_structure::worker_rebuild_steps`,
    /// an incremental update that reuses the prior BLAS references, never
    /// a full build.
    SubmitRebuild { index: bool },
    /// Block until the compute flight reports idle.
    AwaitComputeIdle,
    /// Store the given copy as current, raise the show flag, and emit
    /// the timing measurement.
    Publish { index: bool },
}

/// The machine is in the window between starting to write the back
/// buffer and publishing it.
pub open spec fn writing_phase(s: WorkerState) -> bool {
    ||| s is WriteInstanceData
    ||| s is SubmitRebuild
    ||| s is WaitGpuIdle
    ||| s is PublishSwap
}

/// The update worker's state between events.
pub struct UpdateWorker {
    /// Where the machine stands.
    pub state: WorkerState,
    /// The frame-counter baseline recorded at the end of the previous
    /// cycle.
    pub last_frame: u64,
    /// The largest frame-counter reading observed so far.
    pub observed_frame: u64,
    /// The TLAS copy being written this cycle; meaningful in the writing
    /// phase.
    pub back_index: bool,
}

/// The machine's invariant against the shared selection: readings never
/// fall behind the baseline, and throughout the writing phase the copy
/// being written is the negation of the published one and the frame
/// counter has strictly advanced past the baseline.
pub open spec fn worker_inv(w: UpdateWorker, sel: SelectionState) -> bool {
    &&& w.observed_frame >= w.last_frame
    &&& writing_phase(w.state) ==> {
        &&& w.back_index == !sel.current_index
        &&& w.observed_frame > w.last_frame
    }
}

/// Double-buffer exclusivity: at no point between writing instance data
/// and publishing the swap does the shared selection index equal the
/// index the worker is writing to.
pub proof fn lemma_double_buffer_exclusive(w: UpdateWorker, sel: SelectionState)
    requires
        worker_inv(w, sel),
        writing_phase(w.state),
    ensures
        w.back_index != sel.current_index,
{
}

/// Frame-advance gating: the worker never begins writing instance data
/// before the frame counter has strictly advanced past the baseline of
/// the previous publish.
pub proof fn lemma_frame_advance_gating(w: UpdateWorker, sel: SelectionState)
    requires
        worker_inv(w, sel),
        w.state is WriteInstanceData,
    ensures
        w.observed_frame > w.last_frame,
{
}

/// What the worker thread must do in a given machine state.
pub open spec fn action_of(w: UpdateWorker) -> WorkerAction {
    match w.state {
        WorkerState::Idle => WorkerAction::AwaitWake,
        WorkerState::WaitForFrameAdvance => if w.observed_frame > w.last_frame {
            WorkerAction::AwaitFrame { frame: w.last_frame }
        } else {
            WorkerAction::PollFrameCounter
        },
        WorkerState::WriteInstanceData => WorkerAction::WriteInstances { index: w.back_index },
        WorkerState::SubmitRebuild => WorkerAction::SubmitRebuild { index: w.back_index },
        WorkerState::WaitGpuIdle => WorkerAction::AwaitComputeIdle,
        WorkerState::PublishSwap => WorkerAction::Publish { index: w.back_index },
    }
}

/// The transition relation: the machine and the shared selection after
/// one event. An event the current state is not waiting for changes
/// nothing.
pub open spec fn spec_step(
    w: UpdateWorker,
    sel: SelectionState,
    event: WorkerEvent,
) -> (UpdateWorker, SelectionState) {
    match (w.state, event) {
        (WorkerState::Idle, WorkerEvent::Wake) => (
            UpdateWorker { state: WorkerState::WaitForFrameAdvance, ..w },
            sel,
        ),
        (WorkerState::WaitForFrameAdvance, WorkerEvent::FrameCounter { frame }) => (
            UpdateWorker { observed_frame: frame, ..w },
            sel,
        ),
        (WorkerState::WaitForFrameAdvance, WorkerEvent::FrameRetired) => {
            if w.observed_frame > w.last_frame {
                (
                    UpdateWorker {
                        state: WorkerState::WriteInstanceData,
                        back_index: !sel.current_index,
                        ..w
                    },
                    sel,
                )
            } else {
                (w, sel)
            }
        },
        (WorkerState::WriteInstanceData, WorkerEvent::InstancesWritten) => (
            UpdateWorker { state: WorkerState::SubmitRebuild, ..w },
            sel,
        ),
        (WorkerState::SubmitRebuild, WorkerEvent::RebuildSubmitted) => (
            UpdateWorker { state: WorkerState::WaitGpuIdle, ..w },
            sel,
        ),
        (WorkerState::WaitGpuIdle, WorkerEvent::ComputeIdle { frame }) => (
            UpdateWorker { state: WorkerState::PublishSwap, observed_frame: frame, ..w },
            sel,
        ),
        (WorkerState::PublishSwap, WorkerEvent::SwapPublished) => (
            UpdateWorker { state: WorkerState::Idle, last_frame: w.observed_frame, ..w },
            SelectionState { current_index: w.back_index, show_current_index: true },
        ),
        _ => (w, sel),
    }
}

impl UpdateWorker {
    /// A worker at rest, before its first cycle, with a zero baseline.
    pub fn new() -> (r: UpdateWorker)
        ensures
            r.state is Idle,
            r.last_frame == 0,
            r.observed_frame == 0,
            r.back_index == false,
            forall|sel: SelectionState| worker_inv(r, sel),
    {
        UpdateWorker {
            state: WorkerState::Idle,
            last_frame: 0,
            observed_frame: 0,
            back_index: false,
        }
    }

    /// Drive the machine with one event; returns what the worker thread
    /// must do next. Frame-counter readings must not decrease — the
    /// flight's completed-frame counter is monotone.
    ///
    /// Only the transition out of `PublishSwap` touches the shared
    /// selection, and it strictly advances the baseline: each published
    /// cycle rests on a frame the render thread had not yet completed at
    /// the previous publish.
    pub fn step(&mut self, event: WorkerEvent, selection: &mut SelectionState) -> (r:
        WorkerAction)
        requires
            worker_inv(*old(self), *old(selection)),
            match event {
                WorkerEvent::FrameCounter { frame } => frame >= old(self).observed_frame,
                WorkerEvent::ComputeIdle { frame } => frame >= old(self).observed_frame,
                _ => true,
            },
        ensures
            (*final(self), *final(selection)) == spec_step(*old(self), *old(selection), event),
            worker_inv(*final(self), *final(selection)),
            r == action_of(*final(self)),
            old(self).state is PublishSwap && event is SwapPublished ==> final(self).last_frame
                > old(self).last_frame,
            !(old(self).state is PublishSwap && event is SwapPublished) ==> *final(selection)
                == *old(selection),
    {
        match (self.state, event) {
            (WorkerState::Idle, WorkerEvent::Wake) => {
                self.state = WorkerState::WaitForFrameAdvance;
            },
            (WorkerState::WaitForFrameAdvance, WorkerEvent::FrameCounter { frame }) => {
                self.observed_frame = frame;
            },
            (WorkerState::WaitForFrameAdvance, WorkerEvent::FrameRetired) => {
                if self.observed_frame > self.last_frame {
                    self.back_index = !selection.current_index;
                    self.state = WorkerState::WriteInstanceData;
                }
            },
            (WorkerState::WriteInstanceData, WorkerEvent::InstancesWritten) => {
                self.state = WorkerState::SubmitRebuild;
            },
            (WorkerState::SubmitRebuild, WorkerEvent::RebuildSubmitted) => {
                self.state = WorkerState::WaitGpuIdle;
            },
            (WorkerState::WaitGpuIdle, WorkerEvent::ComputeIdle { frame }) => {
                self.observed_frame = frame;
                self.state = WorkerState::PublishSwap;
            },
            (WorkerState::PublishSwap, WorkerEvent::SwapPublished) => {
                selection.current_index = self.back_index;
                selection.show_current_index = true;
                self.last_frame = self.observed_frame;
                self.state = WorkerState::Idle;
            },
            _ => {},
        }
        self.next_action()
    }

    /// What the worker thread must do in the current state.
    fn next_action(&self) -> (r: WorkerAction)
        ensures
            r == action_of(*self),
    {
        match self.state {
            WorkerState::Idle => WorkerAction::AwaitWake,
            WorkerState::WaitForFrameAdvance => {
                if self.observed_frame > self.last_frame {
                    WorkerAction::AwaitFrame { frame: self.last_frame }
                } else {
                    WorkerAction::PollFrameCounter
                }
            },
            WorkerState::WriteInstanceData => WorkerAction::WriteInstances {
                index: self.back_index,
            },
            WorkerState::SubmitRebuild => WorkerAction::SubmitRebuild { index: self.back_index },
            WorkerState::WaitGpuIdle => WorkerAction::AwaitComputeIdle,
            WorkerState::PublishSwap => WorkerAction::Publish { index: self.back_index },
        }
    }
}

} // verus!
