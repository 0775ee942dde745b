//! Histories of a queue: the calls that threads made on it, in the order in
//! which they held the lock.
//!
//! Since every call runs under the one lock, any interleaving of any number
//! of producers and consumers is such a sequence. What is proved here of all
//! sequences therefore holds of every run.

use vstd::prelude::*;
use crate::queue::{Dequeue, QueueModel};

verus! {

/// One call on the queue.
pub ghost enum Call<T> {
    /// A producer appended the item.
    Enqueue(T),
    /// A consumer looked for an item.
    Dequeue,
    /// Shutdown was signalled.
    Shutdown,
}

/// The queue after `call`.
pub open spec fn apply<T>(queue: QueueModel<T>, call: Call<T>) -> QueueModel<T> {
    match call {
        Call::Enqueue(item) => queue.enqueue(item),
        Call::Dequeue => queue.dequeue(),
        Call::Shutdown => queue.send_shutdown(),
    }
}

/// The queue after all of `calls`, made on a new queue.
pub open spec fn state_after<T>(calls: Seq<Call<T>>) -> QueueModel<T>
    decreases calls.len(),
{
    if calls.len() == 0 {
        QueueModel::empty()
    } else {
        apply(state_after(calls.drop_last()), calls.last())
    }
}

/// The items that producers appended during `calls`, in that order.
pub open spec fn enqueued<T>(calls: Seq<Call<T>>) -> Seq<T>
    decreases calls.len(),
{
    if calls.len() == 0 {
        Seq::empty()
    } else {
        match calls.last() {
            Call::Enqueue(item) => enqueued(calls.drop_last()).push(item),
            _ => enqueued(calls.drop_last()),
        }
    }
}

/// The items that consumers were handed during `calls`, in that order.
pub open spec fn dequeued<T>(calls: Seq<Call<T>>) -> Seq<T>
    decreases calls.len(),
{
    if calls.len() == 0 {
        Seq::empty()
    } else {
        match (calls.last(), state_after(calls.drop_last()).front()) {
            (Call::Dequeue, Dequeue::Item(item)) => dequeued(calls.drop_last()).push(item),
            _ => dequeued(calls.drop_last()),
        }
    }
}

/// Every call that appends an item finds the queue open.
pub open spec fn lawful<T>(calls: Seq<Call<T>>) -> bool {
    forall|i: int|
        0 <= i < calls.len() && (#[trigger] calls[i]) is Enqueue ==> !state_after(
            calls.take(i),
        ).shutdown
}

/// `n` looks by consumers in a row.
pub open spec fn looks<T>(n: nat) -> Seq<Call<T>> {
    Seq::new(n, |i: int| Call::Dequeue)
}

/// Nothing is lost, doubled or reordered: at every moment, the items handed
/// out so far, followed by the items still pending, are the items that were
/// appended, in the order in which they were appended.
pub proof fn lemma_conservation<T>(calls: Seq<Call<T>>)
    ensures
        enqueued(calls) == dequeued(calls) + state_after(calls).items,
    decreases calls.len(),
{
    if calls.len() == 0 {
        assert(enqueued(calls) =~= dequeued(calls) + state_after(calls).items);
    } else {
        let earlier = calls.drop_last();
        lemma_conservation(earlier);
        let before = state_after(earlier);
        match calls.last() {
            Call::Enqueue(item) => {
                assert(enqueued(calls) =~= dequeued(calls) + before.items.push(item));
            },
            Call::Dequeue => {
                if before.items.len() > 0 {
                    assert(dequeued(earlier).push(before.items[0]) + before.items.drop_first()
                        =~= dequeued(earlier) + before.items);
                }
            },
            Call::Shutdown => {},
        }
    }
}

/// First in, first out: what consumers were handed is, item by item, the
/// beginning of what producers appended.
pub proof fn lemma_first_in_first_out<T>(calls: Seq<Call<T>>)
    ensures
        dequeued(calls).is_prefix_of(enqueued(calls)),
        forall|i: int|
            0 <= i < dequeued(calls).len() ==> (#[trigger] dequeued(calls)[i]) == enqueued(
                calls,
            )[i],
{
    lemma_conservation(calls);
}

/// Each producer's order is kept: for any way of telling one producer's items
/// from the others', those of its items that were handed out are the
/// beginning of those that it appended.
pub proof fn lemma_producer_order<T>(calls: Seq<Call<T>>, own: spec_fn(T) -> bool)
    ensures
        dequeued(calls).filter(own).is_prefix_of(enqueued(calls).filter(own)),
{
    lemma_conservation(calls);
    Seq::filter_distributes_over_add(dequeued(calls), state_after(calls).items, own);
}

/// The shutdown flag never reverts: no call opens a queue again.
pub proof fn lemma_shutdown_is_final<T>(calls: Seq<Call<T>>, upto: int)
    requires
        0 <= upto <= calls.len(),
        state_after(calls.take(upto)).shutdown,
    ensures
        state_after(calls).shutdown,
    decreases calls.len() - upto,
{
    if upto == calls.len() {
        assert(calls.take(upto) =~= calls);
    } else {
        assert(calls.take(upto + 1).drop_last() =~= calls.take(upto));
        lemma_shutdown_is_final(calls, upto + 1);
    }
}

/// Shutdown ends the producers' part: in a lawful history nothing is
/// appended after the moment at which shutdown was signalled.
pub proof fn lemma_nothing_joins_after_shutdown<T>(calls: Seq<Call<T>>, upto: int)
    requires
        lawful(calls),
        0 <= upto <= calls.len(),
        state_after(calls.take(upto)).shutdown,
    ensures
        enqueued(calls) == enqueued(calls.take(upto)),
    decreases calls.len() - upto,
{
    if upto == calls.len() {
        assert(calls.take(upto) =~= calls);
    } else {
        let longer = calls.take(upto + 1);
        assert(longer.drop_last() =~= calls.take(upto));
        assert(longer.last() == calls[upto]);
        assert(!(calls[upto] is Enqueue));
        assert(state_after(longer).shutdown);
        assert(enqueued(longer) == enqueued(calls.take(upto)));
        lemma_nothing_joins_after_shutdown(calls, upto + 1);
    }
}

/// A second shutdown signal changes nothing: neither the queue, in whatever
/// state the first one found it, nor what was appended, nor what was handed
/// out.
pub proof fn lemma_shutdown_idempotent<T>(calls: Seq<Call<T>>)
    ensures
        forall|queue: QueueModel<T>| #[trigger]
            queue.send_shutdown().send_shutdown() == queue.send_shutdown(),
        state_after(calls.push(Call::Shutdown).push(Call::Shutdown)) == state_after(
            calls.push(Call::Shutdown),
        ),
        enqueued(calls.push(Call::Shutdown).push(Call::Shutdown)) == enqueued(
            calls.push(Call::Shutdown),
        ),
        dequeued(calls.push(Call::Shutdown).push(Call::Shutdown)) == dequeued(
            calls.push(Call::Shutdown),
        ),
{
    let once = calls.push(Call::Shutdown);
    assert(once.push(Call::Shutdown).drop_last() =~= once);
}

/// After `n` further looks, with no more than `n` items pending, consumers
/// have been handed the first `n` pending items in order; nothing was
/// appended and the flag is as it was.
pub proof fn lemma_looks<T>(calls: Seq<Call<T>>, n: nat)
    requires
        n <= state_after(calls).items.len(),
    ensures
        state_after(calls + looks(n)).items == state_after(calls).items.skip(n as int),
        state_after(calls + looks(n)).shutdown == state_after(calls).shutdown,
        dequeued(calls + looks(n)) == dequeued(calls) + state_after(calls).items.take(n as int),
        enqueued(calls + looks(n)) == enqueued(calls),
    decreases n,
{
    let pending = state_after(calls).items;
    let all = calls + looks::<T>(n);
    if n == 0 {
        assert(all =~= calls);
        assert(pending.skip(0) =~= pending);
        assert(dequeued(calls) + pending.take(0) =~= dequeued(calls));
    } else {
        let earlier = calls + looks::<T>((n - 1) as nat);
        assert(all.drop_last() =~= earlier);
        assert(all.last() == Call::<T>::Dequeue);
        lemma_looks(calls, (n - 1) as nat);
        let before = state_after(earlier);
        assert(before.items.len() > 0);
        assert(before.items[0] == pending[n - 1]);
        assert(before.items.drop_first() =~= pending.skip(n as int));
        assert((dequeued(calls) + pending.take(n - 1)).push(pending[n - 1]) =~= dequeued(calls)
            + pending.take(n as int));
    }
}

/// Graceful drain: consumers that look once for each pending item are handed
/// everything that was ever appended, each item once and in order. If
/// shutdown was signalled, the look after that is the first to report it.
pub proof fn lemma_drain<T>(calls: Seq<Call<T>>)
    ensures
        ({
            let drained = calls + looks(state_after(calls).items.len());
            &&& dequeued(drained) == enqueued(calls)
            &&& enqueued(drained) == enqueued(calls)
            &&& state_after(drained).items.len() == 0
            &&& state_after(calls).shutdown ==> state_after(drained).front() is Shutdown
            &&& !state_after(calls).shutdown ==> state_after(drained).front() is Wait
        }),
{
    let pending = state_after(calls).items;
    lemma_looks(calls, pending.len());
    lemma_conservation(calls);
    assert(pending.take(pending.len() as int) =~= pending);
}

/// A consumer is told that the queue is finished only when nothing is pending
/// and shutdown was signalled, and is then always told so; while items are
/// pending it is handed the oldest one.
pub proof fn lemma_end_of_work<T>(queue: QueueModel<T>)
    ensures
        queue.front() is Shutdown <==> queue.items.len() == 0 && queue.shutdown,
        queue.front() is Wait <==> queue.must_wait(),
        queue.items.len() > 0 ==> queue.front() == Dequeue::Item(queue.items[0]),
        !(queue.front() is Item) ==> queue.dequeue() == queue,
{
}

} // verus!
