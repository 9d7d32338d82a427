//! Tracker for the local tasks of a single task execution.
//!
//! It bundles three pieces of state that must move together:
//!
//! 1. `tasks`: the slots of the local tasks, which a [`LocalTaskId`] selects.
//! 2. `in_flight`: how many local tasks are still scheduled, plus the detached futures that were
//!    registered and have not finished.
//! 3. `done`: an [`Event`] that is notified each time `in_flight` becomes zero, so that the parent
//!    of the tasks can stop waiting.
//!
//! Every increment of the counter is to be matched by exactly one decrement:
//! [`create`](LocalTaskTracker::create) by [`complete`](LocalTaskTracker::complete), and
//! [`register_detached`](LocalTaskTracker::register_detached) by
//! [`dec_in_flight`](LocalTaskTracker::dec_in_flight).

use crate::event::{Event, EventListener};
use crate::id::LocalTaskId;
use crate::local_task::LocalTask;
use crate::state::{lemma_scheduled_count_push, lemma_scheduled_count_update, TrackerState};
use crate::wait::WaitStep;
use vstd::prelude::*;

verus! {

/// Keeps the local tasks of one execution, and tells when all of them have finished.
pub struct LocalTaskTracker<Output> {
    tasks: Vec<LocalTask<Output>>,
    in_flight: u32,
    done: Event,
}

impl<Output> View for LocalTaskTracker<Output> {
    type V = TrackerState<Output>;

    closed spec fn view(&self) -> TrackerState<Output> {
        TrackerState { tasks: self.tasks@, in_flight: self.in_flight as nat, done: self.done@ }
    }
}

impl<Output> LocalTaskTracker<Output> {
    /// A tracker without tasks.
    pub fn new() -> (tracker: Self)
        ensures
            tracker@ == TrackerState::<Output>::empty(),
            tracker@.wf(),
            tracker@.tasks.len() == 0,
            tracker@.in_flight == 0,
            tracker@.done.notifications == 0,
            tracker@.done.description == "LocalTaskTracker::done"@,
    {
        let description = || -> (text: String)
            ensures
                text@ == "LocalTaskTracker::done"@,
            { "LocalTaskTracker::done".to_string() };
        LocalTaskTracker { tasks: Vec::new(), in_flight: 0, done: Event::new(description) }
    }

    /// The task with this id.
    pub fn get(&self, id: LocalTaskId) -> (task: &LocalTask<Output>)
        requires
            id@ <= self@.tasks.len(),
        ensures
            0 <= id.slot() < self@.tasks.len(),
            *task == self@.tasks[id.slot()],
            1 <= id@ <= self@.tasks.len(),
            *task == self@.tasks[id@ - 1],
    {
        // Ids count from one, slots from zero.
        &self.tasks[id.get() as usize - 1]
    }

    /// Puts a newly scheduled task into a slot of its own and counts it as in flight. Returns the
    /// id of the task.
    ///
    /// The increment is balanced by [`complete`](LocalTaskTracker::complete) when the task is done.
    pub fn create(&mut self, task: LocalTask<Output>) -> (id: LocalTaskId)
        requires
            task is Scheduled,
            old(self)@.tasks.len() < u32::MAX,
            old(self)@.in_flight < u32::MAX,
        ensures
            final(self)@ == old(self)@.created(task),
            id.slot() == old(self)@.tasks.len(),
            id@ == final(self)@.tasks.len(),
            final(self)@.tasks == old(self)@.tasks.push(task),
            final(self)@.in_flight == old(self)@.in_flight + 1,
            final(self)@.done == old(self)@.done,
            final(self)@.scheduled() == old(self)@.scheduled() + 1,
            final(self)@.detached() == old(self)@.detached(),
            old(self)@.wf() ==> final(self)@.wf(),
    {
        proof {
            lemma_scheduled_count_push(self.tasks@, task);
        }
        self.tasks.push(task);
        self.in_flight += 1;
        // The id is the new length, which is at least one.
        LocalTaskId::try_from(self.tasks.len() as u32).unwrap()
    }

    /// Turns the scheduled task with this id into a finished one, counts one less in flight, and
    /// notifies `done` if that was the last one.
    ///
    /// Returns the event of the task itself, so that the caller can notify those who wait for the
    /// output of the task after giving up its access to the tracker.
    pub fn complete(&mut self, id: LocalTaskId, output: Output) -> (done_event: Event)
        requires
            old(self)@.is_scheduled(id.slot()),
            old(self)@.in_flight > 0,
        ensures
            final(self)@ == old(self)@.completed(id.slot(), output),
            old(self)@.tasks[id.slot()] == (LocalTask::<Output>::Scheduled { done_event }),
            old(self)@.tasks[id@ - 1] == (LocalTask::<Output>::Scheduled { done_event }),
            final(self)@.tasks == old(self)@.tasks.update(id@ - 1, LocalTask::Done { output }),
            final(self)@.in_flight == old(self)@.in_flight - 1,
            final(self)@.in_flight == 0 ==> final(self)@.done.notifications
                == old(self)@.done.notifications + 1,
            final(self)@.in_flight > 0 ==> final(self)@.done.notifications
                == old(self)@.done.notifications,
            final(self)@.done.description == old(self)@.done.description,
            final(self)@.scheduled() == old(self)@.scheduled() - 1,
            final(self)@.detached() == old(self)@.detached(),
            old(self)@.wf() ==> final(self)@.wf(),
    {
        proof {
            lemma_scheduled_count_update(self.tasks@, id.slot(), output);
        }
        let mut prev = LocalTask::Done { output };
        std::mem::swap(&mut prev, &mut self.tasks[id.get() as usize - 1]);
        match prev {
            LocalTask::Scheduled { done_event } => {
                self.dec_in_flight();
                done_event
            },
            LocalTask::Done { .. } => vstd::pervasive::unreached(),
        }
    }

    /// Counts a detached future as in flight. It gets no slot. The increment is balanced by
    /// [`dec_in_flight`](LocalTaskTracker::dec_in_flight) when the future has finished.
    pub fn register_detached(&mut self)
        requires
            old(self)@.in_flight < u32::MAX,
        ensures
            final(self)@ == old(self)@.incremented(),
            final(self)@.tasks == old(self)@.tasks,
            final(self)@.in_flight == old(self)@.in_flight + 1,
            final(self)@.done == old(self)@.done,
            final(self)@.scheduled() == old(self)@.scheduled(),
            final(self)@.detached() == old(self)@.detached() + 1,
            old(self)@.wf() ==> final(self)@.wf(),
    {
        self.in_flight += 1;
    }

    /// Counts one less in flight, and notifies `done` if that was the last one. This is for
    /// detached futures; [`complete`](LocalTaskTracker::complete) does it for a task with a slot.
    pub fn dec_in_flight(&mut self)
        requires
            old(self)@.in_flight > 0,
        ensures
            final(self)@ == old(self)@.decremented(),
            final(self)@.tasks == old(self)@.tasks,
            final(self)@.in_flight == old(self)@.in_flight - 1,
            final(self)@.in_flight == 0 ==> final(self)@.done.notifications
                == old(self)@.done.notifications + 1,
            final(self)@.in_flight > 0 ==> final(self)@.done.notifications
                == old(self)@.done.notifications,
            final(self)@.done.description == old(self)@.done.description,
            final(self)@.scheduled() == old(self)@.scheduled(),
            final(self)@.detached() == old(self)@.detached() - 1,
            old(self)@.detached() > 0 ==> final(self)@.wf(),
    {
        self.in_flight -= 1;
        if self.in_flight == 0 {
            self.done.notify(usize::MAX);
        }
    }

    /// How many are in flight now.
    pub fn in_flight(&self) -> (in_flight: u32)
        ensures
            in_flight == self@.in_flight,
    {
        self.in_flight
    }

    /// A listener for the next time that nothing is left in flight. One who finds
    /// [`in_flight`](LocalTaskTracker::in_flight) above zero, and takes the listener before the
    /// tracker can change, does not miss that moment.
    pub fn listen(&self) -> (listener: EventListener)
        ensures
            listener@ == self@.done.notifications,
    {
        self.done.listen()
    }

    /// What one who waits until nothing is in flight does next, with the listener that it has
    /// taken, if any.
    pub fn wait_step(&self, listener: &Option<EventListener>) -> (step: WaitStep)
        ensures
            step == self@.wait_step(*listener),
            step is Finish ==> self@.in_flight == 0,
            step is Listen ==> self@.in_flight > 0,
            *listener is None ==> step !is KeepWaiting,
            *listener matches Some(taken) ==> taken@ <= self@.done.notifications <= taken@
                + u64::MAX ==> (step is KeepWaiting <==> self@.done.notifications == taken@),
    {
        match listener {
            Some(listener) if !listener.is_notified(&self.done) => WaitStep::KeepWaiting,
            _ => if self.in_flight == 0 {
                WaitStep::Finish
            } else {
                WaitStep::Listen
            },
        }
    }

    /// The event that is notified when nothing is left in flight.
    pub fn done(&self) -> (done: &Event)
        ensures
            done@ == self@.done,
    {
        &self.done
    }
}

} // verus!
