//! The run-slot state machine shared by the catalog import controller and
//! the scan index controller: one run at a time, cooperative cancellation.

use vstd::prelude::*;

verus! {

/// Abstract state of a controller: whether a run holds the slot, and whether
/// cancellation has been requested.
pub struct RunState {
    pub in_progress: bool,
    pub cancelled: bool,
}

/// The state of a fresh controller.
pub open spec fn idle() -> RunState {
    RunState { in_progress: false, cancelled: false }
}

/// Whether `try_start` acquires the slot in state `s`.
pub open spec fn start_succeeds(s: RunState) -> bool {
    !s.in_progress
}

/// The state after `try_start`: acquiring the slot clears a stale cancel
/// request; failing to acquire it changes nothing.
pub open spec fn after_start(s: RunState) -> RunState {
    if !s.in_progress {
        RunState { in_progress: true, cancelled: false }
    } else {
        s
    }
}

/// The state after `finish`: the slot is released.
pub open spec fn after_finish(s: RunState) -> RunState {
    RunState { in_progress: false, cancelled: s.cancelled }
}

/// The state after `cancel`: cancellation is requested.
pub open spec fn after_cancel(s: RunState) -> RunState {
    RunState { in_progress: s.in_progress, cancelled: true }
}

/// Only one run at a time: once a start succeeds, further starts fail until
/// `finish`; after `finish` a start succeeds again; a successful start
/// clears any earlier cancel request; cancelling never frees the slot.
pub proof fn lemma_run_slot_exclusive(s: RunState)
    ensures
        start_succeeds(s) ==> !start_succeeds(after_start(s)),
        start_succeeds(after_finish(s)),
        start_succeeds(s) ==> !after_start(s).cancelled,
        !start_succeeds(s) ==> after_start(s) == s,
        after_start(after_finish(after_cancel(s))) == (RunState { in_progress: true, cancelled: false }),
        after_cancel(s).in_progress == s.in_progress,
{
}

} // verus!
