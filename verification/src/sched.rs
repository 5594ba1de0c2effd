//! The render scheduler: coalesces repeated "model changed" signals into a
//! single render per host frame tick.
//!
//! The state machine is idle -> scheduled -> idle. `schedule` asks the host
//! for one frame callback only on the idle -> scheduled edge; while already
//! scheduled it changes nothing and asks for nothing, so any number of
//! signals between two ticks leaves exactly one pending callback. The tick
//! returns the machine to idle before the render pass runs.

use vstd::prelude::*;

verus! {

/// Scheduling state: whether a frame callback is pending with the host.
#[derive(Clone, Copy, PartialEq, Eq, Structural, Debug)]
pub struct RenderScheduler {
    pub scheduled: bool,
}

/// What one `schedule` call does: the state after it, and whether the host
/// must be asked for a frame callback.
pub open spec fn spec_schedule(s: RenderScheduler) -> (RenderScheduler, bool) {
    (RenderScheduler { scheduled: true }, !s.scheduled)
}

impl RenderScheduler {
    pub fn new() -> (r: RenderScheduler)
        ensures
            !r.scheduled,
    {
        RenderScheduler { scheduled: false }
    }

    /// Note that a render is wanted. Returns whether the caller must now
    /// register a frame callback with the host: true exactly on the
    /// idle -> scheduled edge, so re-entrant calls from within an event
    /// handler can never register a second one.
    pub fn schedule(&mut self) -> (request: bool)
        ensures
            (*final(self), request) == spec_schedule(*old(self)),
    {
        let request = !self.scheduled;
        self.scheduled = true;
        request
    }

    /// The host's frame tick fired: back to idle, render may run.
    pub fn tick(&mut self)
        ensures
            !final(self).scheduled,
    {
        self.scheduled = false;
    }
}

/// Coalescing: however many `schedule` calls arrive between two ticks, only
/// the first can ask the host for a frame callback; every later one leaves
/// the state as it is and asks for nothing, so exactly one render pass
/// follows at the next tick.
pub proof fn lemma_schedule_coalesces(s: RenderScheduler)
    ensures
        spec_schedule(spec_schedule(s).0).0 == spec_schedule(s).0,
        spec_schedule(spec_schedule(s).0).1 == false,
        spec_schedule(s).0.scheduled,
{
}

} // verus!
