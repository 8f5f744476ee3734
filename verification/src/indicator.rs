//! The progress indicator's lifecycle. The indicator itself, a timer that
//! writes to the output sink, lives outside this library; here is the rule
//! that governs it: it is cancelled once for every time it was started, and a
//! cancellation that finds it stopped does nothing.

use vstd::prelude::*;

verus! {

/// Whether an indicator is running. Its value is that one fact.
pub struct ProgressIndicator {
    active: bool,
}

impl View for ProgressIndicator {
    type V = bool;

    closed spec fn view(&self) -> bool {
        self.active
    }
}

impl ProgressIndicator {
    /// An indicator that is not running.
    pub fn stopped() -> (indicator: Self)
        ensures
            !indicator@,
    {
        ProgressIndicator { active: false }
    }

    /// Whether the indicator is running.
    pub fn is_active(&self) -> (active: bool)
        ensures
            active == self@,
    {
        self.active
    }

    /// Starts the indicator and says whether this call started it: `false`
    /// where it was running already.
    pub fn start(&mut self) -> (started: bool)
        ensures
            final(self)@,
            started == !old(self)@,
    {
        let started = !self.active;
        self.active = true;
        started
    }

    /// Cancels the indicator and says whether this call cancelled it: `false`
    /// where it was not running, so that a second cancellation is a no-op.
    pub fn cancel(&mut self) -> (cancelled: bool)
        ensures
            !final(self)@,
            cancelled == old(self)@,
    {
        let cancelled = self.active;
        self.active = false;
        cancelled
    }
}

} // verus!
