//! The render task's per-frame consumption of the double-buffer
//! selection.

use vstd::prelude::*;

use crate::tasks::SelectionState;

verus! {

/// Each frame, the render task reads which TLAS copy to bind and clears
/// the debug flag after consuming it once. It never changes the
/// selection itself: only the update worker writes `current_index`.
pub fn bind_front_buffer(selection: &mut SelectionState) -> (r: bool)
    ensures
        r == old(selection).current_index,
        final(selection).current_index == old(selection).current_index,
        final(selection).show_current_index == false,
{
    let front = selection.current_index;
    selection.show_current_index = false;
    front
}

} // verus!
