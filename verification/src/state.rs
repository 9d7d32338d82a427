//! What a tracker holds, as a mathematical value, and what each operation makes of it.

use crate::event::EventState;
use crate::local_task::LocalTask;
use vstd::prelude::*;

verus! {

/// How many of these tasks are still scheduled.
pub open spec fn scheduled_count<Output>(tasks: Seq<LocalTask<Output>>) -> nat
    decreases tasks.len(),
{
    if tasks.len() == 0 {
        0
    } else {
        scheduled_count(tasks.drop_last()) + if tasks.last() is Scheduled {
            1nat
        } else {
            0nat
        }
    }
}

/// The contents of a tracker.
#[verifier::ext_equal]
pub struct TrackerState<Output> {
    /// The slots: the task with the id `n` is in the slot `n - 1`.
    pub tasks: Seq<LocalTask<Output>>,
    /// How many scheduled tasks and detached futures have not finished.
    pub in_flight: nat,
    /// The event that is notified when `in_flight` becomes zero.
    pub done: EventState,
}

impl<Output> TrackerState<Output> {
    /// How many tasks are scheduled.
    pub open spec fn scheduled(self) -> nat {
        scheduled_count(self.tasks)
    }

    /// How many detached futures are in flight: what the counter holds beyond the scheduled tasks.
    pub open spec fn detached(self) -> int {
        self.in_flight - self.scheduled()
    }

    /// The counter covers every scheduled task; the rest of it stands for detached futures.
    pub open spec fn wf(self) -> bool {
        self.scheduled() <= self.in_flight
    }

    /// Whether the slot exists and holds a scheduled task.
    pub open spec fn is_scheduled(self, slot: int) -> bool {
        0 <= slot < self.tasks.len() && self.tasks[slot] is Scheduled
    }

    /// Whether the slot exists and holds a finished task.
    pub open spec fn is_done(self, slot: int) -> bool {
        0 <= slot < self.tasks.len() && self.tasks[slot] is Done
    }

    /// A tracker without tasks.
    pub open spec fn empty() -> TrackerState<Output> {
        TrackerState {
            tasks: Seq::empty(),
            in_flight: 0,
            done: EventState { description: "LocalTaskTracker::done"@, notifications: 0 },
        }
    }

    /// One more in flight.
    pub open spec fn incremented(self) -> TrackerState<Output> {
        TrackerState { in_flight: self.in_flight + 1, ..self }
    }

    /// One less in flight; if it was the last, `done` is notified.
    pub open spec fn decremented(self) -> TrackerState<Output> {
        TrackerState {
            in_flight: (self.in_flight - 1) as nat,
            done: if self.in_flight == 1 {
                self.done.notified()
            } else {
                self.done
            },
            ..self
        }
    }

    /// A further slot that holds the given task, and one more in flight.
    pub open spec fn created(self, task: LocalTask<Output>) -> TrackerState<Output> {
        TrackerState { tasks: self.tasks.push(task), ..self }.incremented()
    }

    /// The slot's task is done with this output, and there is one less in flight.
    pub open spec fn completed(self, slot: int, output: Output) -> TrackerState<Output> {
        TrackerState {
            tasks: self.tasks.update(slot, LocalTask::Done { output }),
            ..self
        }.decremented()
    }
}

/// A further task adds one to the count if it is scheduled.
pub proof fn lemma_scheduled_count_push<Output>(
    tasks: Seq<LocalTask<Output>>,
    task: LocalTask<Output>,
)
    ensures
        scheduled_count(tasks.push(task)) == scheduled_count(tasks) + if task is Scheduled {
            1nat
        } else {
            0nat
        },
{
    assert(tasks.push(task).drop_last() =~= tasks);
}

/// Where a scheduled task is replaced by a finished one, the count drops by one.
pub proof fn lemma_scheduled_count_update<Output>(
    tasks: Seq<LocalTask<Output>>,
    slot: int,
    output: Output,
)
    requires
        0 <= slot < tasks.len(),
        tasks[slot] is Scheduled,
    ensures
        scheduled_count(tasks.update(slot, LocalTask::Done { output })) + 1 == scheduled_count(
            tasks,
        ),
    decreases tasks.len(),
{
    let updated = tasks.update(slot, LocalTask::Done { output });
    if slot == tasks.len() - 1 {
        assert(updated.drop_last() =~= tasks.drop_last());
    } else {
        assert(updated.drop_last() =~= tasks.drop_last().update(slot, LocalTask::Done { output }));
        lemma_scheduled_count_update(tasks.drop_last(), slot, output);
    }
}

} // verus!
