//! Events: something that happens now and then, and the listeners that wait for it.
//!
//! An [`Event`] counts how often it was notified, and an [`EventListener`] remembers the count
//! at which it was taken. The listener has been notified when the event has moved on since then,
//! so a listener that was registered before a notification cannot miss it. Taking a listener
//! leaves the event as it is and needs only a shared reference.

use vstd::prelude::*;

verus! {

/// What an [`Event`] is about, as a mathematical value.
#[verifier::ext_equal]
pub struct EventState {
    /// The description that the event was made with.
    pub description: Seq<char>,
    /// How often the event has been notified.
    pub notifications: nat,
}

impl EventState {
    /// The event after one more notification.
    pub open spec fn notified(self) -> EventState {
        EventState { notifications: self.notifications + 1, ..self }
    }
}

/// A count that never overflows as a value: the machine word keeps it modulo its size.
struct Epoch {
    low: u64,
    total: Ghost<nat>,
}

/// How many epochs a machine word tells apart.
pub open spec fn epoch_range() -> nat {
    0x1_0000_0000_0000_0000
}

impl Epoch {
    #[verifier::type_invariant]
    spec fn low_matches_total(self) -> bool {
        self.low == self.total@ % epoch_range()
    }

    fn zero() -> (epoch: Epoch)
        ensures
            epoch.total@ == 0,
    {
        Epoch { low: 0, total: Ghost(0) }
    }

    fn next(&self) -> (epoch: Epoch)
        ensures
            epoch.total@ == self.total@ + 1,
    {
        proof {
            use_type_invariant(self);
        }
        Epoch { low: self.low.wrapping_add(1), total: Ghost(self.total@ + 1) }
    }

    fn copied(&self) -> (epoch: Epoch)
        ensures
            epoch.total@ == self.total@,
    {
        proof {
            use_type_invariant(self);
        }
        Epoch { low: self.low, total: Ghost(self.total@) }
    }

    fn differs(&self, other: &Epoch) -> (differs: bool)
        ensures
            differs == (self.total@ % epoch_range() != other.total@ % epoch_range()),
    {
        proof {
            use_type_invariant(self);
            use_type_invariant(other);
        }
        self.low != other.low
    }
}

/// Something that is notified from time to time, for all who listen at that moment.
pub struct Event {
    description: String,
    epoch: Epoch,
}

impl View for Event {
    type V = EventState;

    closed spec fn view(&self) -> EventState {
        EventState { description: self.description@, notifications: self.epoch.total@ }
    }
}

impl Event {
    /// An event that has not been notified yet. `description` gives the text by which people who
    /// look for a stuck waiter can tell the event from others.
    pub fn new<F>(description: F) -> (event: Event) where F: FnOnce() -> String
        requires
            description.requires(()),
        ensures
            event@.notifications == 0,
            exists|text: String| #[trigger]
                description.ensures((), text) && event@.description == text@,
    {
        let description = description();
        Event { description, epoch: Epoch::zero() }
    }

    /// The description that the event was made with.
    pub fn description(&self) -> (description: &str)
        ensures
            description@ == self@.description,
    {
        self.description.as_str()
    }

    /// Notifies the listeners of the event. `n` says how many of them, and an event of this
    /// kind only ever notifies all: `usize::MAX`.
    pub fn notify(&mut self, n: usize)
        requires
            n == usize::MAX,
        ensures
            final(self)@ == old(self)@.notified(),
            final(self)@.notifications == old(self)@.notifications + 1,
            final(self)@.description == old(self)@.description,
    {
        let epoch = self.epoch.next();
        self.epoch = epoch;
    }

    /// A listener for the next notification.
    pub fn listen(&self) -> (listener: EventListener)
        ensures
            listener@ == self@.notifications,
    {
        EventListener { seen: self.epoch.copied() }
    }
}

/// One who waits for the next notification of an [`Event`]. Its view is the number of
/// notifications that had gone out when it started to listen.
pub struct EventListener {
    seen: Epoch,
}

impl View for EventListener {
    type V = nat;

    closed spec fn view(&self) -> nat {
        self.seen.total@
    }
}

impl EventListener {
    /// Whether the event in this state has been notified since the listener was taken from it.
    pub open spec fn notified_in(self, event: EventState) -> bool {
        event.notifications > self@
    }

    /// Whether `event`, from which the listener was taken, has been notified since. The answer is
    /// exact until the event has gone round the whole range of a machine word.
    pub fn is_notified(&self, event: &Event) -> (notified: bool)
        ensures
            notified == (event@.notifications % epoch_range() != self@ % epoch_range()),
            self@ <= event@.notifications < self@ + epoch_range() ==> notified
                == self.notified_in(event@),
            self@ <= event@.notifications <= self@ + u64::MAX ==> notified == (event@.notifications
                > self@),
    {
        event.epoch.differs(&self.seen)
    }
}

} // verus!
