//! The GPU tasks' decision logic: the double-buffer selection state the
//! render task and the update worker exchange, the render-side read of
//! it, and the update worker's state machine.

use vstd::prelude::*;

pub mod render;
pub mod update_as;

verus! {

/// The shared handoff state between the update worker and the render
/// task: which TLAS copy the render thread should bind, and a debug flag
/// raised on each swap so the change can be observed once.
///
/// The running system holds the two booleans in atomics; the worker is
/// the only writer of `current_index` (with release ordering on the
/// publishing store), the render task only reads it (acquire) and clears
/// `show_current_index` after consuming it.
pub struct SelectionState {
    pub current_index: bool,
    pub show_current_index: bool,
}

impl SelectionState {
    /// The initial selection: copy `false` is current, and the flag is
    /// raised so the first frame observes the initial state.
    pub fn new() -> (r: SelectionState)
        ensures
            r.current_index == false,
            r.show_current_index == true,
    {
        SelectionState { current_index: false, show_current_index: true }
    }
}

} // verus!
