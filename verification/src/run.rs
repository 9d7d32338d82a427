//! Runs of a tracker: any number of operations, one after the other.

use crate::local_task::LocalTask;
use crate::state::TrackerState;
use vstd::prelude::*;

verus! {

/// One operation that changes a tracker.
pub enum Step<Output> {
    /// `create`, with the given task.
    Create { task: LocalTask<Output> },
    /// `complete` for the task in this slot.
    Complete { slot: int, output: Output },
    /// `register_detached`.
    RegisterDetached,
    /// `dec_in_flight`.
    DecInFlight,
}

impl<Output> Step<Output> {
    /// Whether the step counts one more in flight.
    pub open spec fn increments(self) -> bool {
        self is Create || self is RegisterDetached
    }

    /// Whether the step is the completion of this slot.
    pub open spec fn completes(self, slot: int) -> bool {
        self matches Step::Complete { slot: s, .. } && s == slot
    }
}

/// How many of the steps are of this kind.
pub open spec fn count<Output>(
    steps: Seq<Step<Output>>,
    kind: spec_fn(Step<Output>) -> bool,
) -> nat
    decreases steps.len(),
{
    if steps.len() == 0 {
        0
    } else {
        count(steps.drop_last(), kind) + if kind(steps.last()) {
            1nat
        } else {
            0nat
        }
    }
}

/// How many of the steps count one more in flight.
pub open spec fn increments<Output>(steps: Seq<Step<Output>>) -> nat {
    count(steps, |step: Step<Output>| step.increments())
}

/// How many of the steps count one less in flight.
pub open spec fn decrements<Output>(steps: Seq<Step<Output>>) -> nat {
    count(steps, |step: Step<Output>| !step.increments())
}

/// How many tasks the steps create.
pub open spec fn creates<Output>(steps: Seq<Step<Output>>) -> nat {
    count(steps, |step: Step<Output>| step is Create)
}

/// How many tasks the steps complete.
pub open spec fn completions<Output>(steps: Seq<Step<Output>>) -> nat {
    count(steps, |step: Step<Output>| step is Complete)
}

/// How many detached futures the steps register.
pub open spec fn registrations<Output>(steps: Seq<Step<Output>>) -> nat {
    count(steps, |step: Step<Output>| step is RegisterDetached)
}

/// How many of the steps are a decrement on its own, as for a detached future that has finished.
pub open spec fn lone_decrements<Output>(steps: Seq<Step<Output>>) -> nat {
    count(steps, |step: Step<Output>| step is DecInFlight)
}

impl<Output> TrackerState<Output> {
    /// Whether the operation may be called in this state, the limits of the counter aside.
    pub open spec fn accepts(self, step: Step<Output>) -> bool {
        match step {
            Step::Create { task } => task is Scheduled,
            Step::Complete { slot, .. } => self.is_scheduled(slot) && self.in_flight > 0,
            Step::RegisterDetached => true,
            Step::DecInFlight => self.in_flight > 0,
        }
    }

    /// Whether the operation may be called, and a decrement on its own stands for a detached
    /// future that was registered before.
    pub open spec fn accepts_matched(self, step: Step<Output>) -> bool {
        self.accepts(step) && (step is DecInFlight ==> self.detached() > 0)
    }

    /// The state after the operation.
    pub open spec fn step(self, step: Step<Output>) -> TrackerState<Output> {
        match step {
            Step::Create { task } => self.created(task),
            Step::Complete { slot, output } => self.completed(slot, output),
            Step::RegisterDetached => self.incremented(),
            Step::DecInFlight => self.decremented(),
        }
    }

    /// The state after all the steps, in their order.
    pub open spec fn run(self, steps: Seq<Step<Output>>) -> TrackerState<Output>
        decreases steps.len(),
    {
        if steps.len() == 0 {
            self
        } else {
            self.run(steps.drop_last()).step(steps.last())
        }
    }

    /// Whether each of the steps may be called when its turn comes.
    pub open spec fn accepts_all(self, steps: Seq<Step<Output>>) -> bool
        decreases steps.len(),
    {
        steps.len() > 0 ==> self.accepts_all(steps.drop_last()) && self.run(
            steps.drop_last(),
        ).accepts(steps.last())
    }

    /// Whether each of the steps may be called when its turn comes, with every decrement matched
    /// by an increment of its own kind.
    pub open spec fn accepts_all_matched(self, steps: Seq<Step<Output>>) -> bool
        decreases steps.len(),
    {
        steps.len() > 0 ==> self.accepts_all_matched(steps.drop_last()) && self.run(
            steps.drop_last(),
        ).accepts_matched(steps.last())
    }

    /// Whether each increment comes while something is in flight already, as one does that is made
    /// by a task that is itself counted.
    pub open spec fn increments_in_flight(self, steps: Seq<Step<Output>>) -> bool {
        forall|n: int|
            0 <= n < steps.len() && (#[trigger] steps[n]).increments() ==> self.run(
                steps.take(n),
            ).in_flight > 0
    }

    /// How often the steps bring the counter from above zero to zero.
    pub open spec fn arrivals_at_zero(self, steps: Seq<Step<Output>>) -> nat
        decreases steps.len(),
    {
        if steps.len() == 0 {
            0
        } else {
            self.arrivals_at_zero(steps.drop_last()) + if self.run(steps.drop_last()).in_flight > 0
                && self.run(steps).in_flight == 0 {
                1nat
            } else {
                0nat
            }
        }
    }
}

} // verus!
