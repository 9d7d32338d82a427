//! The decisions of one who waits until nothing is in flight.
//!
//! The waiter looks at the counter and takes its listener in one step, waits until the listener has
//! been notified, and then looks again, since new work may have started in between.

use crate::event::{epoch_range, EventListener};
use crate::state::TrackerState;
use vstd::prelude::*;

verus! {

/// What a waiter does next.
#[derive(Clone, Copy, Debug, PartialEq, Eq, Structural)]
pub enum WaitStep {
    /// Nothing is in flight: the wait is over.
    Finish,
    /// Something is in flight: take a listener, and wait for it.
    Listen,
    /// The listener has not been notified yet.
    KeepWaiting,
}

impl<Output> TrackerState<Output> {
    /// What a waiter with this listener does next.
    pub open spec fn wait_step(self, listener: Option<EventListener>) -> WaitStep {
        if listener matches Some(listener) && listener@ % epoch_range() == self.done.notifications
            % epoch_range() {
            WaitStep::KeepWaiting
        } else if self.in_flight == 0 {
            WaitStep::Finish
        } else {
            WaitStep::Listen
        }
    }
}

} // verus!
