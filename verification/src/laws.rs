//! What holds of a tracker over any number of operations.

use crate::event::{epoch_range, Event, EventListener, EventState};
use crate::local_task::LocalTask;
use crate::run::{
    completions, count, creates, decrements, increments, lone_decrements, registrations, Step,
};
use crate::state::{
    lemma_scheduled_count_push, lemma_scheduled_count_update, scheduled_count, TrackerState,
};
use crate::wait::WaitStep;
use vstd::prelude::*;

verus! {

/// The counter is what it was, plus the increments, less the decrements. In particular it is zero
/// in a tracker that started empty if and only if each increment has had its decrement.
pub proof fn law_counter_is_increments_less_decrements<Output>(
    state: TrackerState<Output>,
    steps: Seq<Step<Output>>,
)
    requires
        state.accepts_all(steps),
    ensures
        state.run(steps).in_flight == state.in_flight + increments(steps) - decrements(steps),
    decreases steps.len(),
{
    if steps.len() > 0 {
        law_counter_is_increments_less_decrements(state, steps.drop_last());
    }
}

/// Each kind of work is counted for itself. The scheduled tasks are those that there were, plus the
/// ones created, less the ones completed; the detached futures are those that there were, plus the
/// ones registered, less the decrements made for them.
pub proof fn law_each_kind_of_work_is_counted<Output>(
    state: TrackerState<Output>,
    steps: Seq<Step<Output>>,
)
    requires
        state.accepts_all(steps),
    ensures
        state.run(steps).scheduled() == state.scheduled() + creates(steps) - completions(steps),
        state.run(steps).detached() == state.detached() + registrations(steps) - lone_decrements(
            steps,
        ),
    decreases steps.len(),
{
    if steps.len() > 0 {
        let before = state.run(steps.drop_last());
        law_each_kind_of_work_is_counted(state, steps.drop_last());
        match steps.last() {
            Step::Create { task } => {
                lemma_scheduled_count_push(before.tasks, task);
            },
            Step::Complete { slot, output } => {
                lemma_scheduled_count_update(before.tasks, slot, output);
            },
            _ => {},
        }
    }
}

/// `create` and then `complete` for the task leave the counter as it was, the slots before as they
/// were, and the output in the new slot. `done` is notified if and only if nothing else is in
/// flight.
pub proof fn law_complete_balances_create<Output>(
    state: TrackerState<Output>,
    task: LocalTask<Output>,
    output: Output,
)
    requires
        task is Scheduled,
    ensures
        state.created(task).accepts(Step::Complete { slot: state.tasks.len() as int, output }),
        state.created(task).completed(state.tasks.len() as int, output) == (TrackerState {
            tasks: state.tasks.push(LocalTask::Done { output }),
            in_flight: state.in_flight,
            done: if state.in_flight == 0 {
                state.done.notified()
            } else {
                state.done
            },
        }),
{
    let after = state.created(task).completed(state.tasks.len() as int, output);
    assert(after.tasks =~= state.tasks.push(LocalTask::Done { output }));
}

/// `register_detached` and then `dec_in_flight` change nothing, but that `done` is notified if
/// nothing else is in flight.
pub proof fn law_dec_in_flight_balances_register_detached<Output>(state: TrackerState<Output>)
    ensures
        state.wf() ==> state.incremented().accepts_matched(Step::DecInFlight),
        state.incremented().decremented() == (TrackerState {
            done: if state.in_flight == 0 {
                state.done.notified()
            } else {
                state.done
            },
            ..state
        }),
{
}

proof fn lemma_matched_step<Output>(state: TrackerState<Output>, step: Step<Output>)
    requires
        state.wf(),
        state.accepts_matched(step),
    ensures
        state.step(step).wf(),
{
    match step {
        Step::Create { task } => {
            lemma_scheduled_count_push(state.tasks, task);
        },
        Step::Complete { slot, output } => {
            lemma_scheduled_count_update(state.tasks, slot, output);
        },
        _ => {},
    }
}

/// The counter goes on covering every scheduled task, whatever is called, as long as each
/// `dec_in_flight` is for a detached future that was registered.
pub proof fn law_counter_covers_scheduled_tasks<Output>(
    state: TrackerState<Output>,
    steps: Seq<Step<Output>>,
)
    requires
        state.wf(),
        state.accepts_all_matched(steps),
    ensures
        state.run(steps).wf(),
        state.accepts_all(steps),
    decreases steps.len(),
{
    if steps.len() > 0 {
        law_counter_covers_scheduled_tasks(state, steps.drop_last());
        lemma_matched_step(state.run(steps.drop_last()), steps.last());
    }
}

proof fn lemma_scheduled_is_counted<Output>(tasks: Seq<LocalTask<Output>>, slot: int)
    requires
        0 <= slot < tasks.len(),
        tasks[slot] is Scheduled,
    ensures
        scheduled_count(tasks) > 0,
    decreases tasks.len(),
{
    if slot < tasks.len() - 1 {
        lemma_scheduled_is_counted(tasks.drop_last(), slot);
    }
}

proof fn lemma_counted_is_scheduled<Output>(tasks: Seq<LocalTask<Output>>)
    requires
        forall|slot: int| 0 <= slot < tasks.len() ==> #[trigger] tasks[slot] is Done,
    ensures
        scheduled_count(tasks) == 0,
    decreases tasks.len(),
{
    if tasks.len() > 0 {
        lemma_counted_is_scheduled(tasks.drop_last());
    }
}

/// A scheduled task can always be completed: its increment is still in the counter.
pub proof fn law_scheduled_task_can_be_completed<Output>(
    state: TrackerState<Output>,
    slot: int,
    output: Output,
)
    requires
        state.wf(),
        state.is_scheduled(slot),
    ensures
        state.accepts(Step::Complete { slot, output }),
{
    lemma_scheduled_is_counted(state.tasks, slot);
}

/// The counter is zero if and only if every task is done and no detached future is in flight, so
/// that one who finds it at zero need not wait.
pub proof fn law_zero_means_nothing_is_pending<Output>(state: TrackerState<Output>)
    requires
        state.wf(),
    ensures
        state.in_flight == 0 <==> state.detached() == 0 && (forall|slot: int|
            0 <= slot < state.tasks.len() ==> state.is_done(slot)),
{
    if state.in_flight == 0 {
        assert forall|slot: int| 0 <= slot < state.tasks.len() implies state.is_done(slot) by {
            if state.tasks[slot] is Scheduled {
                lemma_scheduled_is_counted(state.tasks, slot);
            }
        }
    }
    if forall|slot: int| 0 <= slot < state.tasks.len() ==> state.is_done(slot) {
        assert forall|slot: int| 0 <= slot < state.tasks.len() implies #[trigger] state.tasks[slot]
            is Done by {
            assert(state.is_done(slot));
        }
        lemma_counted_is_scheduled(state.tasks);
    }
}

/// `done` is notified each time the counter becomes zero, and at no other time.
pub proof fn law_done_is_notified_at_each_arrival_at_zero<Output>(
    state: TrackerState<Output>,
    steps: Seq<Step<Output>>,
)
    requires
        state.accepts_all(steps),
    ensures
        state.run(steps).done.notifications == state.done.notifications + state.arrivals_at_zero(
            steps,
        ),
        state.run(steps).done.description == state.done.description,
    decreases steps.len(),
{
    if steps.len() > 0 {
        law_done_is_notified_at_each_arrival_at_zero(state, steps.drop_last());
    }
}

proof fn lemma_prefix<Output>(state: TrackerState<Output>, steps: Seq<Step<Output>>, n: int)
    requires
        0 <= n <= steps.len(),
    ensures
        state.accepts_all(steps) ==> state.accepts_all(steps.take(n)),
        state.accepts_all_matched(steps) ==> state.accepts_all_matched(steps.take(n)),
        state.run(steps) == state.run(steps.take(n)).run(steps.skip(n)),
        state.accepts_all(steps) ==> state.run(steps.take(n)).accepts_all(steps.skip(n)),
    decreases steps.len(),
{
    if n == steps.len() {
        assert(steps.take(n) =~= steps);
        assert(steps.skip(n) =~= Seq::empty());
    } else {
        lemma_prefix(state, steps.drop_last(), n);
        assert(steps.drop_last().take(n) =~= steps.take(n));
        assert(steps.drop_last().skip(n) =~= steps.skip(n).drop_last());
        assert(steps.skip(n).last() == steps.last());
    }
}

/// No wakeup is lost, and none comes early. A listener that was taken while something was in
/// flight has been notified if and only if the counter has been at zero since.
pub proof fn law_listener_is_notified_once_zero_is_reached<Output>(
    state: TrackerState<Output>,
    listener: EventListener,
    steps: Seq<Step<Output>>,
)
    requires
        state.in_flight > 0,
        listener@ == state.done.notifications,
        state.accepts_all(steps),
    ensures
        listener.notified_in(state.run(steps).done) <==> exists|n: int|
            0 <= n <= steps.len() && (#[trigger] state.run(steps.take(n))).in_flight == 0,
        state.run(steps).in_flight == 0 ==> listener.notified_in(state.run(steps).done),
    decreases steps.len(),
{
    assert(steps.take(steps.len() as int) =~= steps);
    if steps.len() > 0 {
        let before = steps.drop_last();
        law_listener_is_notified_once_zero_is_reached(state, listener, before);
        law_done_is_notified_at_each_arrival_at_zero(state, before);
        assert forall|n: int| 0 <= n <= before.len() implies #[trigger] before.take(n)
            == steps.take(n) by {
            assert(before.take(n) =~= steps.take(n));
        }
        if listener.notified_in(state.run(before).done) {
            let n = choose|n: int|
                0 <= n <= before.len() && (#[trigger] state.run(before.take(n))).in_flight == 0;
            assert(state.run(steps.take(n)).in_flight == 0);
        } else {
            assert(state.run(before.take(before.len() as int)).in_flight > 0);
            assert forall|n: int|
                0 <= n <= before.len() implies (#[trigger] state.run(steps.take(n))).in_flight
                > 0 by {
                assert(before.take(n) == steps.take(n));
            }
            assert(state.run(steps) == state.run(steps.take(steps.len() as int)));
        }
    }
}

/// Where new work is registered by counted work only, zero is the end: a listener that was taken
/// while something was in flight has been notified if and only if nothing is in flight any more.
pub proof fn law_zero_is_the_end_of_counted_work<Output>(
    state: TrackerState<Output>,
    listener: EventListener,
    steps: Seq<Step<Output>>,
)
    requires
        state.in_flight > 0,
        listener@ == state.done.notifications,
        state.accepts_all(steps),
        state.increments_in_flight(steps),
    ensures
        listener.notified_in(state.run(steps).done) <==> state.run(steps).in_flight == 0,
{
    law_listener_is_notified_once_zero_is_reached(state, listener, steps);
    if listener.notified_in(state.run(steps).done) {
        let n = choose|n: int|
            0 <= n <= steps.len() && (#[trigger] state.run(steps.take(n))).in_flight == 0;
        if n < steps.len() {
            lemma_prefix(state, steps, n + 1);
            assert(steps.take(n + 1).drop_last() =~= steps.take(n));
            assert(state.run(steps.take(n)).accepts(steps[n]));
            assert(!steps[n].increments());
        }
        assert(steps.take(n) =~= steps);
    }
}

/// Slots are never given up, and a finished task keeps its output: what is done stays in its slot
/// as it is, and cannot be completed again.
pub proof fn law_done_is_final<Output>(
    state: TrackerState<Output>,
    steps: Seq<Step<Output>>,
    slot: int,
    output: Output,
)
    requires
        state.is_done(slot),
        state.accepts_all(steps),
    ensures
        state.run(steps).tasks.len() >= state.tasks.len(),
        state.run(steps).tasks[slot] == state.tasks[slot],
        !state.run(steps).accepts(Step::Complete { slot, output }),
    decreases steps.len(),
{
    if steps.len() > 0 {
        law_done_is_final(state, steps.drop_last(), slot, output);
    }
}

/// What `complete` puts into a slot is what `get` gives from then on.
pub proof fn law_output_is_kept<Output>(
    state: TrackerState<Output>,
    slot: int,
    output: Output,
    steps: Seq<Step<Output>>,
)
    requires
        state.accepts(Step::Complete { slot, output }),
        state.completed(slot, output).accepts_all(steps),
    ensures
        slot < state.completed(slot, output).run(steps).tasks.len(),
        state.completed(slot, output).run(steps).tasks[slot] == (LocalTask::Done { output }),
{
    law_done_is_final(state.completed(slot, output), steps, slot, output);
}

/// A task stays scheduled, with the event that it was created with, until it is completed; so
/// `complete` returns that event.
pub proof fn law_event_is_kept_until_completion<Output>(
    state: TrackerState<Output>,
    done_event: Event,
    steps: Seq<Step<Output>>,
)
    requires
        state.created(LocalTask::Scheduled { done_event }).accepts_all(steps),
        forall|i: int|
            0 <= i < steps.len() ==> !(#[trigger] steps[i]).completes(state.tasks.len() as int),
    ensures
        ({
            let slot = state.tasks.len() as int;
            let after = state.created(LocalTask::Scheduled { done_event }).run(steps);
            slot < after.tasks.len() && after.tasks[slot] == (LocalTask::<Output>::Scheduled {
                done_event,
            })
        }),
    decreases steps.len(),
{
    if steps.len() > 0 {
        let before = steps.drop_last();
        assert forall|i: int| 0 <= i < before.len() implies !(#[trigger] before[i]).completes(
            state.tasks.len() as int,
        ) by {
            assert(before[i] == steps[i]);
        }
        law_event_is_kept_until_completion(state, done_event, before);
        assert(!steps[steps.len() - 1].completes(state.tasks.len() as int));
    }
}

/// There is a slot for each task that was ever created, so that the next task gets the number of
/// those before it as its slot: in a tracker that started empty, the task that is created as the
/// `k`-th has the id `k`.
pub proof fn law_slots_count_the_created_tasks<Output>(
    state: TrackerState<Output>,
    steps: Seq<Step<Output>>,
)
    requires
        state.accepts_all(steps),
    ensures
        state.run(steps).tasks.len() == state.tasks.len() + creates(steps),
    decreases steps.len(),
{
    if steps.len() > 0 {
        law_slots_count_the_created_tasks(state, steps.drop_last());
    }
}

/// No id is given twice: after a task was created, every later one gets a slot behind it, whatever
/// was called in between.
pub proof fn law_ids_are_not_reused<Output>(
    state: TrackerState<Output>,
    task: LocalTask<Output>,
    steps: Seq<Step<Output>>,
)
    requires
        state.accepts(Step::Create { task }),
        state.created(task).accepts_all(steps),
    ensures
        state.created(task).run(steps).tasks.len() == state.tasks.len() + 1 + creates(steps),
{
    law_slots_count_the_created_tasks(state.created(task), steps);
}

/// One who starts to wait while tasks are scheduled is not notified before they are done: when the
/// listener has been notified, every task that was scheduled when it was taken has finished.
pub proof fn law_notified_listener_finds_tasks_done<Output>(
    state: TrackerState<Output>,
    listener: EventListener,
    steps: Seq<Step<Output>>,
    slot: int,
)
    requires
        state.wf(),
        listener@ == state.done.notifications,
        state.accepts_all_matched(steps),
        state.is_scheduled(slot),
        listener.notified_in(state.run(steps).done),
    ensures
        state.run(steps).is_done(slot),
{
    law_counter_covers_scheduled_tasks(state, steps);
    lemma_scheduled_is_counted(state.tasks, slot);
    law_listener_is_notified_once_zero_is_reached(state, listener, steps);
    let n = choose|n: int|
        0 <= n <= steps.len() && (#[trigger] state.run(steps.take(n))).in_flight == 0;
    let quiet = state.run(steps.take(n));
    lemma_prefix(state, steps, n);
    law_counter_covers_scheduled_tasks(state, steps.take(n));
    law_zero_means_nothing_is_pending(quiet);
    law_slots_count_the_created_tasks(state, steps.take(n));
    assert(quiet.is_done(slot));
    law_done_is_final(quiet, steps.skip(n), slot, quiet.tasks[slot]->output);
}

proof fn lemma_count_of_prefix<Output>(
    steps: Seq<Step<Output>>,
    n: int,
    kind: spec_fn(Step<Output>) -> bool,
)
    requires
        0 <= n <= steps.len(),
    ensures
        count(steps.take(n), kind) <= count(steps, kind),
    decreases steps.len(),
{
    if n == steps.len() {
        assert(steps.take(n) =~= steps);
    } else {
        assert(steps.drop_last().take(n) =~= steps.take(n));
        lemma_count_of_prefix(steps.drop_last(), n, kind);
    }
}

/// One who starts to wait while anything is in flight is not notified before the detached futures
/// have finished either: when the listener has been notified, there was a moment at which none was
/// in flight, each of those that there were or that had been registered since having had its
/// decrement.
pub proof fn law_notified_listener_finds_detached_futures_finished<Output>(
    state: TrackerState<Output>,
    listener: EventListener,
    steps: Seq<Step<Output>>,
)
    requires
        state.wf(),
        state.in_flight > 0,
        listener@ == state.done.notifications,
        state.accepts_all_matched(steps),
        listener.notified_in(state.run(steps).done),
    ensures
        exists|n: int|
            0 <= n <= steps.len() && (#[trigger] state.run(steps.take(n))).in_flight == 0
                && state.run(steps.take(n)).detached() == 0 && lone_decrements(steps.take(n))
                == state.detached() + registrations(steps.take(n)),
        lone_decrements(steps) >= state.detached(),
{
    law_counter_covers_scheduled_tasks(state, steps);
    law_listener_is_notified_once_zero_is_reached(state, listener, steps);
    let n = choose|n: int|
        0 <= n <= steps.len() && (#[trigger] state.run(steps.take(n))).in_flight == 0;
    lemma_prefix(state, steps, n);
    law_counter_covers_scheduled_tasks(state, steps.take(n));
    law_zero_means_nothing_is_pending(state.run(steps.take(n)));
    law_each_kind_of_work_is_counted(state, steps.take(n));
    lemma_count_of_prefix(steps, n, |step: Step<Output>| step is DecInFlight);
}

/// A waiter does not miss its moment. If it took its listener while something was in flight, it goes
/// on waiting only while the counter has not been at zero since, and it finishes if nothing is in
/// flight. Before the count of notifications has gone round the range of a machine word, that is.
pub proof fn law_waiter_finishes_at_zero<Output>(
    state: TrackerState<Output>,
    listener: EventListener,
    steps: Seq<Step<Output>>,
)
    requires
        state.in_flight > 0,
        listener@ == state.done.notifications,
        state.accepts_all(steps),
        state.arrivals_at_zero(steps) <= u64::MAX,
    ensures
        state.run(steps).wait_step(Some(listener)) == WaitStep::KeepWaiting <==> forall|n: int|
            0 <= n <= steps.len() ==> (#[trigger] state.run(steps.take(n))).in_flight > 0,
        state.run(steps).wait_step(Some(listener)) == WaitStep::Finish <==> state.run(
            steps,
        ).in_flight == 0,
{
    law_listener_is_notified_once_zero_is_reached(state, listener, steps);
    law_done_is_notified_at_each_arrival_at_zero(state, steps);
}

/// Two counts of notifications are told apart unless they differ by a multiple of the size of a
/// machine word of 64 bits.
pub proof fn law_epochs_have_the_range_of_a_machine_word()
    ensures
        epoch_range() == u64::MAX + 1,
{
}

/// To have been notified is to have been taken before the latest notification.
pub proof fn law_listener_is_notified_by_later_notifications(
    listener: EventListener,
    event: EventState,
)
    ensures
        listener.notified_in(event) <==> listener@ < event.notifications,
        event.notified().notifications == event.notifications + 1,
        event.notified().description == event.description,
        listener@ <= event.notifications ==> listener.notified_in(event.notified()),
{
}

/// A waiter goes by the counter. It finishes only while nothing is in flight, and takes a listener
/// only while something is. Without a listener it does one of the two at once; with one it waits
/// exactly as long as no notification has come since the listener was taken.
pub proof fn law_waiter_goes_by_the_counter<Output>(
    state: TrackerState<Output>,
    listener: Option<EventListener>,
)
    ensures
        state.wait_step(listener) is Finish ==> state.in_flight == 0,
        state.wait_step(listener) is Listen ==> state.in_flight > 0,
        state.wait_step(None) is Finish <==> state.in_flight == 0,
        state.wait_step(None) is Listen <==> state.in_flight > 0,
        listener matches Some(taken) ==> taken@ <= state.done.notifications <= taken@ + u64::MAX
            ==> (state.wait_step(listener) is KeepWaiting <==> state.done.notifications == taken@),
{
}

/// When a waiter finishes, nothing is pending: every task is done, and no detached future is in
/// flight.
pub proof fn law_waiter_finishes_with_nothing_pending<Output>(
    state: TrackerState<Output>,
    listener: Option<EventListener>,
)
    requires
        scheduled_count(state.tasks) <= state.in_flight,
        state.wait_step(listener) is Finish,
    ensures
        forall|slot: int| 0 <= slot < state.tasks.len() ==> #[trigger] state.tasks[slot] is Done,
        state.in_flight == scheduled_count(state.tasks),
{
    law_zero_means_nothing_is_pending(state);
    assert forall|slot: int| 0 <= slot < state.tasks.len() implies #[trigger] state.tasks[slot]
        is Done by {
        assert(state.is_done(slot));
    }
}

/// A waiter that finds a task scheduled does not finish, with whatever listener; and if the
/// listener is fresh, or there is none, it listens or waits for the next notification.
pub proof fn law_waiter_does_not_finish_before_a_scheduled_task<Output>(
    state: TrackerState<Output>,
    listener: Option<EventListener>,
    slot: int,
)
    requires
        scheduled_count(state.tasks) <= state.in_flight,
        0 <= slot < state.tasks.len(),
        state.tasks[slot] is Scheduled,
    ensures
        state.wait_step(listener) !is Finish,
        state.wait_step(None) is Listen,
        listener matches Some(taken) ==> taken@ == state.done.notifications ==> state.wait_step(
            listener,
        ) is KeepWaiting,
{
    lemma_scheduled_is_counted(state.tasks, slot);
}

/// A listener that has been notified stays so. Once its waiter need not wait any longer, it never
/// has to wait with that listener again, whatever is called, for as many notifications as a machine
/// word of 64 bits can count.
pub proof fn law_notified_listener_stays_notified<Output>(
    state: TrackerState<Output>,
    listener: EventListener,
    steps: Seq<Step<Output>>,
)
    requires
        listener@ < state.done.notifications,
        state.accepts_all(steps),
        state.run(steps).done.notifications <= listener@ + u64::MAX,
    ensures
        listener@ < state.run(steps).done.notifications,
        state.wait_step(Some(listener)) !is KeepWaiting,
        state.run(steps).wait_step(Some(listener)) !is KeepWaiting,
        state.run(steps).in_flight == 0 ==> state.run(steps).wait_step(Some(listener)) is Finish,
        state.run(steps).in_flight > 0 ==> state.run(steps).wait_step(Some(listener)) is Listen,
{
    law_done_is_notified_at_each_arrival_at_zero(state, steps);
}

/// A tracker starts with no task, nothing in flight, and no notification sent.
pub proof fn law_tracker_starts_empty<Output>()
    ensures
        TrackerState::<Output>::empty().tasks.len() == 0,
        TrackerState::<Output>::empty().in_flight == 0,
        TrackerState::<Output>::empty().done.notifications == 0,
        TrackerState::<Output>::empty().done.description == "LocalTaskTracker::done"@,
        TrackerState::<Output>::empty().scheduled() == 0,
        TrackerState::<Output>::empty().detached() == 0,
{
}

/// `create` adds one slot behind the others, with the task in it, and one to the counter. It
/// notifies no one.
pub proof fn law_create_adds_one_slot<Output>(
    state: TrackerState<Output>,
    task: LocalTask<Output>,
    slot: int,
)
    ensures
        state.created(task).tasks.len() == state.tasks.len() + 1,
        state.created(task).tasks.last() == task,
        0 <= slot < state.tasks.len() ==> state.created(task).tasks[slot] == state.tasks[slot],
        state.created(task).in_flight == state.in_flight + 1,
        state.created(task).done == state.done,
{
}

/// `complete` puts the output into its slot, and leaves every other slot as it is.
pub proof fn law_complete_changes_one_slot<Output>(
    state: TrackerState<Output>,
    slot: int,
    output: Output,
    other: int,
)
    requires
        0 <= slot < state.tasks.len(),
        0 <= other < state.tasks.len(),
        other != slot,
    ensures
        state.completed(slot, output).tasks.len() == state.tasks.len(),
        state.completed(slot, output).tasks[slot] == (LocalTask::Done { output }),
        state.completed(slot, output).tasks[other] == state.tasks[other],
{
}

/// Both operations that count one less notify `done` if that leaves nothing in flight, and only
/// then; and then once.
pub proof fn law_decrement_notifies_exactly_at_zero<Output>(
    state: TrackerState<Output>,
    slot: int,
    output: Output,
)
    requires
        state.in_flight > 0,
    ensures
        state.decremented().in_flight == state.in_flight - 1,
        state.decremented().tasks == state.tasks,
        state.decremented().done.notifications - state.done.notifications == if state.in_flight > 1 {
            0int
        } else {
            1int
        },
        state.completed(slot, output).in_flight == state.in_flight - 1,
        state.completed(slot, output).done == state.decremented().done,
        state.decremented().done.description == state.done.description,
{
}

/// `register_detached` changes the counter and nothing else.
pub proof fn law_register_detached_changes_the_counter_only<Output>(state: TrackerState<Output>)
    ensures
        state.incremented().in_flight == state.in_flight + 1,
        state.incremented().tasks == state.tasks,
        state.incremented().done == state.done,
{
}

/// The count of scheduled tasks is the number of slots that hold one, and what the counter holds
/// beyond it are detached futures.
pub proof fn law_scheduled_tasks_are_the_scheduled_slots<Output>(state: TrackerState<Output>)
    ensures
        state.scheduled() == state.tasks.filter(|task: LocalTask<Output>| task is Scheduled).len(),
        state.in_flight == state.scheduled() + state.detached(),
        state.wf() <==> state.detached() >= 0,
    decreases state.tasks.len(),
{
    reveal(Seq::filter);
    if state.tasks.len() > 0 {
        law_scheduled_tasks_are_the_scheduled_slots(
            TrackerState { tasks: state.tasks.drop_last(), ..state },
        );
    }
}

/// An operation may be called exactly when it has something to work on: `create` a scheduled task,
/// `complete` a slot with one, and every decrement a counter above zero.
pub proof fn law_operations_are_accepted_when_they_have_work<Output>(
    state: TrackerState<Output>,
    task: LocalTask<Output>,
    slot: int,
    output: Output,
)
    ensures
        state.accepts(Step::Create { task }) <==> task is Scheduled,
        state.accepts(Step::Complete { slot, output }) <==> 0 <= slot < state.tasks.len()
            && state.tasks[slot] is Scheduled && state.in_flight > 0,
        state.accepts(Step::RegisterDetached),
        state.accepts(Step::DecInFlight) <==> state.in_flight > 0,
        state.accepts_matched(Step::DecInFlight) <==> state.in_flight > 0 && state.detached() > 0,
        state.is_scheduled(slot) <==> 0 <= slot < state.tasks.len() && state.tasks[slot]
            is Scheduled,
        state.is_done(slot) <==> 0 <= slot < state.tasks.len() && state.tasks[slot] is Done,
{
}

/// A run is its operations one after the other: no step changes nothing, and one more step goes on
/// from where the steps before it have led.
pub proof fn law_runs_go_step_by_step<Output>(
    state: TrackerState<Output>,
    steps: Seq<Step<Output>>,
    step: Step<Output>,
)
    ensures
        state.run(Seq::empty()) == state,
        state.accepts_all(Seq::empty()),
        state.run(steps.push(step)) == (match step {
            Step::Create { task } => state.run(steps).created(task),
            Step::Complete { slot, output } => state.run(steps).completed(slot, output),
            Step::RegisterDetached => state.run(steps).incremented(),
            Step::DecInFlight => state.run(steps).decremented(),
        }),
        state.accepts_all(steps.push(step)) <==> state.accepts_all(steps) && state.run(
            steps,
        ).accepts(step),
        state.accepts_all_matched(steps.push(step)) <==> state.accepts_all_matched(steps)
            && state.run(steps).accepts_matched(step),
{
    assert(steps.push(step).drop_last() =~= steps);
}

/// The counter gains by `create` and `register_detached`, and loses by `complete` and
/// `dec_in_flight`.
pub proof fn law_increments_and_decrements_by_kind<Output>(steps: Seq<Step<Output>>)
    ensures
        increments(steps) == creates(steps) + registrations(steps),
        decrements(steps) == completions(steps) + lone_decrements(steps),
        increments(steps) + decrements(steps) == steps.len(),
    decreases steps.len(),
{
    if steps.len() > 0 {
        law_increments_and_decrements_by_kind(steps.drop_last());
    }
}

} // verus!
