# local_task_tracker

Bookkeeping for the local tasks of a single task execution, verified with Verus.

A `LocalTaskTracker` keeps each local task in a slot of its own, counts the tasks and detached
futures that have not finished, and notifies an event each time that count becomes zero.

- `src/tracker.rs`: the tracker. Its contracts speak of the `TrackerState` in `src/state.rs`.
- `src/event.rs`, `src/id.rs`, `src/local_task.rs`: events and listeners, ids, tasks.
- `src/wait.rs`: what one who waits until nothing is in flight does next.
- `src/run.rs`, `src/laws.rs`: runs of operations, and what is proved of every run.
- `app/`: a tracker behind a lock, with a future that waits until nothing is in flight.
- `tests/`: the same promises on concrete values.

An event counts its notifications, and a listener knows the count at which it was taken. Waking the
waiters themselves is left to the code around the library. `app/` does it for the tracker's own
event only. The event of a single task goes to the one who completes the task, and only the holder
of an event can ask whether a listener has been notified; one who waits for the output of a task
finds it with `get` once the task is done.
