//! Consumers that park: why one wake-up per item and a wake-up for all at
//! shutdown leave no consumer asleep on work.
//!
//! A consumer that is told to wait parks on the condition variable. The
//! queue answers every call that could end a wait with the wake-up that is
//! due ([`Wake::One`] after an item joined, [`Wake::All`] after shutdown).
//! Here the parked consumers are counted next to the queue, and it is proved
//! that, whatever the order of events, consumers are parked only while the
//! queue is open and every pending item has a woken consumer on its way.

use vstd::prelude::*;
use crate::queue::{QueueModel, Wake};

verus! {

/// A queue with the consumers that wait on it.
#[verifier::ext_equal]
pub ghost struct Parking<T> {
    /// The queue.
    pub queue: QueueModel<T>,
    /// How many consumers are parked.
    pub parked: nat,
    /// How many consumers were woken and have not yet looked again.
    pub woken: nat,
}

/// Something that happens to a queue and its consumers.
pub ghost enum Event<T> {
    /// A producer appends the item and gives the wake-up that is due.
    Enqueue(T),
    /// Shutdown is signalled, with the wake-up that is due.
    Shutdown,
    /// A consumer that was not parked looks for an item.
    Arrive,
    /// A consumer that was woken gets the lock and looks again.
    Return,
    /// A parked consumer wakes although nobody signalled.
    Stir,
}

impl<T> Parking<T> {
    /// A new queue, with nobody waiting.
    pub open spec fn empty() -> Parking<T> {
        Parking { queue: QueueModel::empty(), parked: 0, woken: 0 }
    }

    /// The effect of a wake-up: it moves one parked consumer, if there is
    /// one, or all of them.
    pub open spec fn notify(self, wake: Wake) -> Parking<T> {
        match wake {
            Wake::One => if self.parked > 0 {
                Parking { parked: (self.parked - 1) as nat, woken: self.woken + 1, ..self }
            } else {
                self
            },
            Wake::All => Parking { parked: 0, woken: self.woken + self.parked, ..self },
        }
    }

    /// A consumer looks: it parks if it has to wait, and otherwise leaves
    /// with the oldest item or with the news of the shutdown.
    pub open spec fn look(self) -> Parking<T> {
        if self.queue.must_wait() {
            Parking { parked: self.parked + 1, ..self }
        } else {
            Parking { queue: self.queue.dequeue(), ..self }
        }
    }

    /// The event can happen now.
    pub open spec fn admits(self, event: Event<T>) -> bool {
        match event {
            Event::Enqueue(_) => !self.queue.shutdown,
            Event::Return => self.woken > 0,
            Event::Stir => self.parked > 0,
            _ => true,
        }
    }

    /// The queue and its consumers after the event.
    pub open spec fn step(self, event: Event<T>) -> Parking<T> {
        match event {
            Event::Enqueue(item) => Parking { queue: self.queue.enqueue(item), ..self }.notify(
                Wake::One,
            ),
            Event::Shutdown => Parking { queue: self.queue.send_shutdown(), ..self }.notify(
                Wake::All,
            ),
            Event::Arrive => self.look(),
            Event::Return => Parking { woken: (self.woken - 1) as nat, ..self }.look(),
            Event::Stir => Parking {
                parked: (self.parked - 1) as nat,
                woken: self.woken + 1,
                ..self
            },
        }
    }

    /// Nobody sleeps on work: while a consumer is parked, the queue is open
    /// and there are at least as many woken consumers as pending items.
    pub open spec fn sound(self) -> bool {
        self.parked > 0 ==> !self.queue.shutdown && self.queue.items.len() <= self.woken
    }
}

/// The queue and its consumers after all of `events`, starting from a new
/// queue.
pub open spec fn parking_after<T>(events: Seq<Event<T>>) -> Parking<T>
    decreases events.len(),
{
    if events.len() == 0 {
        Parking::empty()
    } else {
        parking_after(events.drop_last()).step(events.last())
    }
}

/// Each of `events` could happen when it did.
pub open spec fn possible<T>(events: Seq<Event<T>>) -> bool
    decreases events.len(),
{
    events.len() > 0 ==> possible(events.drop_last()) && parking_after(
        events.drop_last(),
    ).admits(events.last())
}

/// No event lets a consumer sleep on work.
pub proof fn lemma_step_sound<T>(parking: Parking<T>, event: Event<T>)
    requires
        parking.sound(),
        parking.admits(event),
    ensures
        parking.step(event).sound(),
{
}

/// No wake-up is missed: whatever happens and in whatever order, consumers
/// are parked only while the queue is open and every pending item has a
/// woken consumer on its way; once shutdown is signalled nobody is parked.
pub proof fn lemma_no_missed_wakeup<T>(events: Seq<Event<T>>)
    requires
        possible(events),
    ensures
        parking_after(events).sound(),
        parking_after(events).queue.shutdown ==> parking_after(events).parked == 0,
    decreases events.len(),
{
    if events.len() > 0 {
        lemma_no_missed_wakeup(events.drop_last());
        lemma_step_sound(parking_after(events.drop_last()), events.last());
    }
}

/// A parked consumer leaves its wait only through a wake-up: after an item
/// joined, after shutdown was signalled, or by stirring of itself. Looks by
/// other consumers leave it parked.
pub proof fn lemma_parked_until_woken<T>(parking: Parking<T>, event: Event<T>)
    requires
        parking.admits(event),
        parking.step(event).parked < parking.parked,
    ensures
        event is Enqueue || event is Shutdown || event is Stir,
{
}

} // verus!
