//! Tests of the tracker.

use local_task_tracker::{Event, LocalTask, LocalTaskId, LocalTaskTracker, WaitStep};
use std::num::NonZeroU32;

#[derive(Debug, PartialEq)]
struct TaskId(NonZeroU32);

#[derive(Debug, PartialEq)]
enum RawVc {
    TaskOutput(TaskId),
}

#[derive(Debug, PartialEq)]
enum OutputContent {
    Link(RawVc),
}

fn dummy_output() -> OutputContent {
    OutputContent::Link(RawVc::TaskOutput(TaskId(NonZeroU32::try_from(1).unwrap())))
}

fn scheduled<Output>(text: &str) -> LocalTask<Output> {
    LocalTask::Scheduled { done_event: Event::new(|| text.to_string()) }
}

fn is_scheduled<Output>(tracker: &LocalTaskTracker<Output>, id: LocalTaskId) -> bool {
    matches!(tracker.get(id), LocalTask::Scheduled { .. })
}

/// `create` increments `in_flight`; `complete` performs the slot transition AND decrements in one
/// step.
#[test]
fn create_then_complete_balances_in_flight() {
    let mut tracker = LocalTaskTracker::new();
    assert_eq!(tracker.in_flight(), 0);

    let id = tracker.create(LocalTask::Scheduled {
        done_event: Event::new(|| "test".to_string()),
    });
    assert_eq!(tracker.in_flight(), 1);

    tracker.complete(id, dummy_output());
    assert_eq!(tracker.in_flight(), 0);
}

#[test]
fn detached_inc_dec_balances_in_flight() {
    let mut tracker = LocalTaskTracker::<OutputContent>::new();
    tracker.register_detached();
    tracker.register_detached();
    assert_eq!(tracker.in_flight(), 2);
    tracker.dec_in_flight();
    assert_eq!(tracker.in_flight(), 1);
    tracker.dec_in_flight();
    assert_eq!(tracker.in_flight(), 0);
}

#[test]
fn complete_returns_done_event_from_scheduled_slot() {
    let mut tracker = LocalTaskTracker::new();
    let id = tracker.create(LocalTask::Scheduled {
        done_event: Event::new(|| "per-task".to_string()),
    });
    // Sanity: just confirm the returned Event can be notified without panic.
    let mut done_event = tracker.complete(id, dummy_output());
    done_event.notify(usize::MAX);
    assert_eq!(done_event.description(), "per-task");
}

#[test]
fn new_tracker_is_empty_and_describes_its_event() {
    let tracker = LocalTaskTracker::<u8>::new();
    assert_eq!(tracker.in_flight(), 0);
    assert_eq!(tracker.done().description(), "LocalTaskTracker::done");
    assert!(!tracker.listen().is_notified(tracker.done()));
}

#[test]
fn ids_count_from_one_and_are_not_reused() {
    let mut tracker = LocalTaskTracker::new();
    let first = tracker.create(scheduled("first"));
    let second = tracker.create(scheduled("second"));
    assert_eq!(first.get(), 1);
    assert_eq!(second.get(), 2);
    tracker.complete(first, 10);
    tracker.complete(second, 20);
    let third = tracker.create(scheduled("third"));
    assert_eq!(third.get(), 3);
    assert!(is_scheduled(&tracker, third));
}

#[test]
fn get_follows_the_task_through_its_stages() {
    let mut tracker = LocalTaskTracker::new();
    let first = tracker.create(scheduled("first"));
    let second = tracker.create(scheduled("second"));
    match tracker.get(first) {
        LocalTask::Scheduled { done_event } => assert_eq!(done_event.description(), "first"),
        LocalTask::Done { .. } => panic!("not finished yet"),
    }
    let event = tracker.complete(second, dummy_output());
    assert_eq!(event.description(), "second");
    assert!(is_scheduled(&tracker, first));
    match tracker.get(second) {
        LocalTask::Scheduled { .. } => panic!("finished already"),
        LocalTask::Done { output } => assert_eq!(*output, dummy_output()),
    }
}

#[test]
fn output_stays_after_later_operations() {
    let mut tracker = LocalTaskTracker::new();
    let id = tracker.create(scheduled("kept"));
    tracker.complete(id, 7);
    let other = tracker.create(scheduled("other"));
    tracker.register_detached();
    tracker.complete(other, 8);
    tracker.dec_in_flight();
    assert!(matches!(tracker.get(id), LocalTask::Done { output: 7 }));
    assert!(matches!(tracker.get(other), LocalTask::Done { output: 8 }));
}

#[test]
fn done_is_notified_at_zero_only() {
    let mut tracker = LocalTaskTracker::new();
    let first = tracker.create(scheduled("first"));
    let second = tracker.create(scheduled("second"));
    let listener = tracker.listen();
    tracker.complete(first, 1);
    assert_eq!(tracker.in_flight(), 1);
    assert!(!listener.is_notified(tracker.done()));
    tracker.complete(second, 2);
    assert_eq!(tracker.in_flight(), 0);
    assert!(listener.is_notified(tracker.done()));
}

#[test]
fn done_is_notified_at_each_arrival_at_zero() {
    let mut tracker = LocalTaskTracker::<u8>::new();
    for _ in 0..3 {
        tracker.register_detached();
        let listener = tracker.listen();
        assert!(!listener.is_notified(tracker.done()));
        tracker.dec_in_flight();
        assert!(listener.is_notified(tracker.done()));
    }
}

#[test]
fn wakeup_is_not_lost_when_work_starts_again() {
    let mut tracker = LocalTaskTracker::new();
    let id = tracker.create(scheduled("before"));
    let listener = tracker.listen();
    tracker.complete(id, 1);
    tracker.create(scheduled("after"));
    assert_eq!(tracker.in_flight(), 1);
    assert!(listener.is_notified(tracker.done()));
}

#[test]
fn late_listener_waits_for_the_next_notification() {
    let mut tracker = LocalTaskTracker::new();
    let id = tracker.create(scheduled("first"));
    tracker.complete(id, 1);
    let listener = tracker.listen();
    assert!(!listener.is_notified(tracker.done()));
    tracker.register_detached();
    assert!(!listener.is_notified(tracker.done()));
    tracker.dec_in_flight();
    assert!(listener.is_notified(tracker.done()));
}

#[test]
fn tasks_and_detached_futures_share_the_counter() {
    let mut tracker = LocalTaskTracker::new();
    let id = tracker.create(scheduled("task"));
    tracker.register_detached();
    assert_eq!(tracker.in_flight(), 2);
    let listener = tracker.listen();
    tracker.complete(id, 1);
    assert_eq!(tracker.in_flight(), 1);
    assert!(!listener.is_notified(tracker.done()));
    tracker.dec_in_flight();
    assert_eq!(tracker.in_flight(), 0);
    assert!(listener.is_notified(tracker.done()));
}

#[test]
fn notified_listener_finds_its_tasks_done() {
    let mut tracker = LocalTaskTracker::new();
    let ids = vec![tracker.create(scheduled("a")), tracker.create(scheduled("b"))];
    let listener = tracker.listen();
    let late = tracker.create(scheduled("late"));
    tracker.complete(ids[1], 1);
    tracker.complete(late, 2);
    assert!(!listener.is_notified(tracker.done()));
    tracker.complete(ids[0], 3);
    assert!(listener.is_notified(tracker.done()));
    assert!(!is_scheduled(&tracker, ids[0]));
    assert!(!is_scheduled(&tracker, ids[1]));
}

#[test]
fn counted_work_that_registers_more_work_ends_at_zero() {
    let mut tracker = LocalTaskTracker::new();
    let parent = tracker.create(scheduled("parent"));
    let listener = tracker.listen();
    let child = tracker.create(scheduled("child"));
    tracker.complete(parent, 1);
    tracker.register_detached();
    tracker.complete(child, 2);
    assert_eq!(tracker.in_flight(), 1);
    assert!(!listener.is_notified(tracker.done()));
    tracker.dec_in_flight();
    assert_eq!(tracker.in_flight(), 0);
    assert!(listener.is_notified(tracker.done()));
}

#[test]
fn kth_created_task_has_the_id_k() {
    let mut tracker = LocalTaskTracker::new();
    for k in 1..=5 {
        let id = tracker.create(scheduled("task"));
        assert_eq!(id.get(), k);
        tracker.register_detached();
        if k % 2 == 0 {
            tracker.complete(id, k);
        }
    }
    // Five created and two completed; five registered.
    assert_eq!(tracker.in_flight(), 8);
}

#[test]
fn notified_listener_finds_detached_futures_finished() {
    let mut tracker = LocalTaskTracker::new();
    tracker.register_detached();
    tracker.register_detached();
    let listener = tracker.listen();
    let id = tracker.create(scheduled("task"));
    tracker.dec_in_flight();
    tracker.complete(id, 1);
    assert!(!listener.is_notified(tracker.done()));
    tracker.dec_in_flight();
    assert!(listener.is_notified(tracker.done()));
}

#[test]
fn waiter_finishes_at_once_when_nothing_is_in_flight() {
    let tracker = LocalTaskTracker::<u8>::new();
    assert_eq!(tracker.wait_step(&None), WaitStep::Finish);
}

#[test]
fn waiter_listens_waits_and_finishes() {
    let mut tracker = LocalTaskTracker::<u8>::new();
    tracker.register_detached();
    tracker.register_detached();
    assert_eq!(tracker.wait_step(&None), WaitStep::Listen);
    let listener = Some(tracker.listen());
    assert_eq!(tracker.wait_step(&listener), WaitStep::KeepWaiting);
    tracker.dec_in_flight();
    assert_eq!(tracker.wait_step(&listener), WaitStep::KeepWaiting);
    tracker.dec_in_flight();
    assert_eq!(tracker.wait_step(&listener), WaitStep::Finish);
}

#[test]
fn waiter_listens_again_when_work_has_started_again() {
    let mut tracker = LocalTaskTracker::<u8>::new();
    tracker.register_detached();
    let listener = Some(tracker.listen());
    tracker.dec_in_flight();
    tracker.register_detached();
    assert_eq!(tracker.wait_step(&listener), WaitStep::Listen);
}
