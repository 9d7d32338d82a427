//! The two stages of a local task's life.

use crate::event::Event;
use vstd::prelude::*;

verus! {

/// A local task: one that runs within another task and is known there only. `Output` is what it
/// leaves behind when it is done.
pub enum LocalTask<Output> {
    /// The task has not finished. Whoever wants its output listens to `done_event`.
    Scheduled { done_event: Event },
    /// The task has finished with this output.
    Done { output: Output },
}

} // verus!
