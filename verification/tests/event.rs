//! Tests of events, listeners and ids.

use local_task_tracker::{Event, LocalTaskId, ZeroIdError};

#[test]
fn event_keeps_its_description() {
    let event = Event::new(|| format!("task {}", 5));
    assert_eq!(event.description(), "task 5");
}

#[test]
fn notification_reaches_all_who_listen() {
    let mut event = Event::new(|| "event".to_string());
    let one = event.listen();
    let two = event.listen();
    assert!(!one.is_notified(&event));
    assert!(!two.is_notified(&event));
    event.notify(usize::MAX);
    let three = event.listen();
    assert!(one.is_notified(&event));
    assert!(two.is_notified(&event));
    assert!(!three.is_notified(&event));
    event.notify(usize::MAX);
    assert!(one.is_notified(&event));
    assert!(three.is_notified(&event));
}

#[test]
fn ids_are_not_zero() {
    assert_eq!(LocalTaskId::try_from(0), Err(ZeroIdError));
    assert_eq!(LocalTaskId::try_from(1).unwrap().get(), 1);
    assert_eq!(LocalTaskId::try_from(u32::MAX).unwrap().get(), u32::MAX);
}
