//! The state that a blocking queue guards with its lock: the pending items in
//! arrival order and the one-way shutdown flag, with the operations that
//! producers and consumers apply while they hold the lock.
//!
//! Parking and waking a consumer is the business of whoever owns the lock and
//! the condition variable. What is decided here is when a consumer has to
//! park and whom a call has to wake: [`SharedQueue::dequeue`] answers
//! [`Dequeue::Wait`] for an empty queue that is still open, and the caller
//! waits for a wake-up and asks again; [`SharedQueue::enqueue`] and
//! [`SharedQueue::send_shutdown`] answer with the [`Wake`] that is due.

use vstd::prelude::*;
use std::collections::VecDeque;

verus! {

/// The queue as a mathematical value.
#[verifier::ext_equal]
pub ghost struct QueueModel<T> {
    /// The pending items, the oldest first.
    pub items: Seq<T>,
    /// Whether shutdown has been signalled.
    pub shutdown: bool,
}

/// What a consumer learns from one look at the queue under the lock.
#[derive(Debug, PartialEq, Eq)]
pub enum Dequeue<T> {
    /// The oldest pending item, now removed from the queue.
    Item(T),
    /// Nothing is pending and producers may still come: park and ask again.
    Wait,
    /// Nothing is pending and nothing ever will be: the consumer is done.
    Shutdown,
}

/// The wake-up that is due to the parked consumers after a call.
#[derive(Clone, Copy, Debug, PartialEq, Eq, Structural)]
pub enum Wake {
    /// One consumer: one item has arrived, and one consumer can take it.
    One,
    /// Every consumer: each has to see for itself that the queue is shut
    /// down.
    All,
}

impl<T> QueueModel<T> {
    /// The queue as it is created: empty and open.
    pub open spec fn empty() -> QueueModel<T> {
        QueueModel { items: Seq::empty(), shutdown: false }
    }

    /// The queue after `item` joined at the back.
    pub open spec fn enqueue(self, item: T) -> QueueModel<T> {
        QueueModel { items: self.items.push(item), shutdown: self.shutdown }
    }

    /// The queue after shutdown was signalled: the pending items stay.
    pub open spec fn send_shutdown(self) -> QueueModel<T> {
        QueueModel { items: self.items, shutdown: true }
    }

    /// What one look by a consumer yields.
    pub open spec fn front(self) -> Dequeue<T> {
        if self.items.len() > 0 {
            Dequeue::Item(self.items[0])
        } else if self.shutdown {
            Dequeue::Shutdown
        } else {
            Dequeue::Wait
        }
    }

    /// The queue after one look by a consumer: without its oldest item if it
    /// had one, and as it was otherwise.
    pub open spec fn dequeue(self) -> QueueModel<T> {
        if self.items.len() > 0 {
            QueueModel { items: self.items.drop_first(), shutdown: self.shutdown }
        } else {
            self
        }
    }

    /// A consumer that looks now has to park.
    pub open spec fn must_wait(self) -> bool {
        self.items.len() == 0 && !self.shutdown
    }
}

/// The pending items and the shutdown flag, as one value under one lock.
pub struct SharedQueue<T> {
    queue: VecDeque<T>,
    shutdown: bool,
}

impl<T> View for SharedQueue<T> {
    type V = QueueModel<T>;

    closed spec fn view(&self) -> QueueModel<T> {
        QueueModel { items: self.queue@, shutdown: self.shutdown }
    }
}

impl<T> SharedQueue<T> {
    /// An empty, open queue.
    pub fn new() -> (queue: Self)
        ensures
            queue@ == QueueModel::<T>::empty(),
    {
        SharedQueue { queue: VecDeque::new(), shutdown: false }
    }

    /// Appends `item` at the back; one parked consumer is to be woken.
    ///
    /// Shutdown ends the producers' part: a queue that was shut down takes no
    /// further item, so the caller has to know that it is still open.
    pub fn enqueue(&mut self, item: T) -> (wake: Wake)
        requires
            !old(self)@.shutdown,
        ensures
            final(self)@ == old(self)@.enqueue(item),
            wake == Wake::One,
    {
        self.queue.push_back(item);
        Wake::One
    }

    /// Takes the oldest pending item, if there is one.
    ///
    /// Pending items are handed out whether or not shutdown was signalled.
    /// [`Dequeue::Shutdown`] comes exactly when nothing is pending and
    /// shutdown was signalled, [`Dequeue::Wait`] exactly when nothing is
    /// pending and it was not; neither changes the queue.
    pub fn dequeue(&mut self) -> (taken: Dequeue<T>)
        ensures
            taken == old(self)@.front(),
            final(self)@ == old(self)@.dequeue(),
            taken is Shutdown <==> old(self)@.items.len() == 0 && old(self)@.shutdown,
            taken is Wait <==> old(self)@.must_wait(),
    {
        match self.queue.pop_front() {
            Some(item) => {
                assert(self.queue@ =~= old(self).queue@.drop_first());
                Dequeue::Item(item)
            },
            None => {
                if self.shutdown {
                    Dequeue::Shutdown
                } else {
                    Dequeue::Wait
                }
            },
        }
    }

    /// Signals shutdown; every parked consumer is to be woken. The pending
    /// items stay, and a second signal changes nothing.
    pub fn send_shutdown(&mut self) -> (wake: Wake)
        ensures
            final(self)@ == old(self)@.send_shutdown(),
            wake == Wake::All,
    {
        self.shutdown = true;
        Wake::All
    }

    /// The number of pending items.
    pub fn size(&self) -> (n: usize)
        ensures
            n == self@.items.len(),
    {
        self.queue.len()
    }

    /// Whether shutdown has been signalled.
    pub fn is_shutdown(&self) -> (closed: bool)
        ensures
            closed == self@.shutdown,
    {
        self.shutdown
    }
}

} // verus!
