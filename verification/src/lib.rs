//! Bookkeeping for the local tasks of a single task execution.
//!
//! [`LocalTaskTracker`] keeps the tasks in slots, counts those that have not finished, and notifies
//! an event each time that count becomes zero. [`state`] says what a tracker holds and what each
//! operation makes of it, [`run`] puts operations one after the other, and [`laws`] proves what
//! holds over any number of them: that no waiter misses its wakeup, among others.

pub mod event;
pub mod id;
pub mod laws;
pub mod local_task;
pub mod run;
pub mod state;
pub mod tracker;
pub mod wait;

pub use event::{Event, EventListener};
pub use id::{LocalTaskId, ZeroIdError};
pub use local_task::LocalTask;
pub use tracker::LocalTaskTracker;
pub use wait::WaitStep;
