//! Laws of the queue, proved over the model of [`crate::model`].
//!
//! The contracts of the executable operations say that each of them takes
//! the buffer and the handle from one model state to the next. The lemmas
//! here say what follows for whole runs of operations: the bound that the
//! resend window puts on the fill level, the order in which items come out,
//! what the two sides count, and what the history window shows.

use vstd::prelude::*;
use crate::error::{PopError, PushError};
use crate::model::{ConsumerView, ProducerView, QueueView, RingView};
use crate::position::{
    advance, distance, lemma_advance_distance, lemma_advance_twice, lemma_distance_splits,
};

verus! {

/// One operation on the queue, as far as it changes the buffer or a handle.
pub enum Operation<T> {
    /// The producer attempts to push the value.
    Push(T),
    /// The consumer attempts to pop.
    Pop,
    /// The producer looks for a free slot (`is_full`, `next_tail`).
    ProducerChecks,
    /// The producer counts the free slots (`slots`).
    ProducerCounts,
    /// The consumer looks for an item (`is_empty`, `peek`, `next_head`).
    ConsumerChecks,
    /// The consumer counts or views the items (`slots`, `history`).
    ConsumerCounts,
}

/// The state after one operation.
pub open spec fn step<T>(queue: QueueView<T>, op: Operation<T>) -> QueueView<T> {
    match op {
        Operation::Push(value) => QueueView {
            ring: queue.ring.push(value),
            producer: queue.producer.after_push(queue.ring),
            ..queue
        },
        Operation::Pop => QueueView {
            ring: queue.ring.pop(),
            consumer: queue.consumer.after_pop(queue.ring),
            ..queue
        },
        Operation::ProducerChecks => QueueView {
            producer: queue.producer.after_check(queue.ring),
            ..queue
        },
        Operation::ProducerCounts => QueueView {
            producer: queue.producer.refreshed(queue.ring),
            ..queue
        },
        Operation::ConsumerChecks => QueueView {
            consumer: queue.consumer.after_check(queue.ring),
            ..queue
        },
        Operation::ConsumerCounts => QueueView {
            consumer: queue.consumer.refreshed(queue.ring),
            ..queue
        },
    }
}

/// The state after a run of operations, first to last.
pub open spec fn run<T>(queue: QueueView<T>, ops: Seq<Operation<T>>) -> QueueView<T>
    decreases ops.len(),
{
    if ops.len() == 0 {
        queue
    } else {
        run(step(queue, ops[0]), ops.drop_first())
    }
}

/// The values that the pushes of a run got accepted, in their order.
pub open spec fn accepted<T>(queue: QueueView<T>, ops: Seq<Operation<T>>) -> Seq<T>
    decreases ops.len(),
{
    if ops.len() == 0 {
        Seq::empty()
    } else {
        let first = match ops[0] {
            Operation::Push(value) if queue.ring.accepts() => seq![value],
            _ => Seq::empty(),
        };
        first + accepted(step(queue, ops[0]), ops.drop_first())
    }
}

/// The items that the pops of a run returned, in their order.
pub open spec fn delivered<T>(queue: QueueView<T>, ops: Seq<Operation<T>>) -> Seq<T>
    decreases ops.len(),
{
    if ops.len() == 0 {
        Seq::empty()
    } else {
        let first = if ops[0] is Pop && queue.ring.items.len() > 0 {
            seq![queue.ring.items[0]]
        } else {
            Seq::empty()
        };
        first + delivered(step(queue, ops[0]), ops.drop_first())
    }
}

/// The state after pushing the values one after the other.
pub open spec fn push_all<T>(ring: RingView<T>, values: Seq<T>) -> RingView<T>
    decreases values.len(),
{
    if values.len() == 0 {
        ring
    } else {
        push_all(ring.push(values[0]), values.drop_first())
    }
}

/// The state after `n` attempts to pop.
pub open spec fn pop_n<T>(ring: RingView<T>, n: nat) -> RingView<T>
    decreases n,
{
    if n == 0 {
        ring
    } else {
        pop_n(ring.pop(), (n - 1) as nat)
    }
}

/// Whatever either side does, the buffer stays well-formed with its
/// configuration unchanged, and both handles stay attached to it: an
/// operation of one side never invalidates what the other side has cached.
pub proof fn lemma_step_keeps_wf<T>(queue: QueueView<T>, op: Operation<T>)
    requires
        queue.wf(),
    ensures
        step(queue, op).wf(),
        step(queue, op).ring.capacity == queue.ring.capacity,
        step(queue, op).ring.resend_window == queue.ring.resend_window,
{
    let ring = queue.ring;
    lemma_advance_distance(ring.capacity, ring.head, ring.items.len());
    lemma_distance_splits(ring.capacity, queue.producer.cached_head, ring.head, ring.items.len());
}

/// First in, first out, however the operations of the two sides are
/// interleaved: what the pops have returned, followed by what is still
/// buffered, is what was buffered at the start, followed by what the pushes
/// got accepted. No item is lost, repeated, changed or overtaken.
pub proof fn lemma_every_run_is_fifo<T>(queue: QueueView<T>, ops: Seq<Operation<T>>)
    requires
        queue.wf(),
    ensures
        run(queue, ops).wf(),
        run(queue, ops).ring.capacity == queue.ring.capacity,
        run(queue, ops).ring.resend_window == queue.ring.resend_window,
        delivered(queue, ops) + run(queue, ops).ring.items == queue.ring.items + accepted(
            queue,
            ops,
        ),
    decreases ops.len(),
{
    if ops.len() == 0 {
        assert(delivered(queue, ops) + queue.ring.items =~= queue.ring.items + accepted(
            queue,
            ops,
        ));
    } else {
        let next = step(queue, ops[0]);
        let rest = ops.drop_first();
        lemma_step_keeps_wf(queue, ops[0]);
        lemma_every_run_is_fifo(next, rest);
        let first_in: Seq<T> = match ops[0] {
            Operation::Push(value) if queue.ring.accepts() => seq![value],
            _ => Seq::empty(),
        };
        let first_out: Seq<T> = if ops[0] is Pop && queue.ring.items.len() > 0 {
            seq![queue.ring.items[0]]
        } else {
            Seq::empty()
        };
        assert(first_out + next.ring.items =~= queue.ring.items + first_in);
        assert(delivered(queue, ops) + run(queue, ops).ring.items =~= first_out + (delivered(
            next,
            rest,
        ) + run(next, rest).ring.items));
        assert(queue.ring.items + accepted(queue, ops) =~= (queue.ring.items + first_in)
            + accepted(next, rest));
    }
}

/// However the operations of the two sides are interleaved, the number of
/// items pushed and not yet popped is the fill level of the buffer, and it
/// never exceeds `capacity - resend_window`. Since this holds of every run,
/// it holds after every prefix of a run.
pub proof fn lemma_fill_never_exceeds_max_advance<T>(queue: QueueView<T>, ops: Seq<Operation<T>>)
    requires
        queue.wf(),
    ensures
        run(queue, ops).ring.items.len() == queue.ring.items.len() + accepted(queue, ops).len()
            - delivered(queue, ops).len(),
        queue.ring.items.len() + accepted(queue, ops).len() - delivered(queue, ops).len()
            <= queue.ring.capacity - queue.ring.resend_window,
{
    lemma_every_run_is_fifo(queue, ops);
    assert((delivered(queue, ops) + run(queue, ops).ring.items).len() == (queue.ring.items
        + accepted(queue, ops)).len());
}

/// Pushes that fit are all accepted and append the values in their order.
pub proof fn lemma_push_all_appends<T>(ring: RingView<T>, values: Seq<T>)
    requires
        ring.wf(),
        ring.items.len() + values.len() <= ring.max_advance(),
    ensures
        push_all(ring, values) == (RingView { items: ring.items + values, ..ring }),
    decreases values.len(),
{
    if values.len() == 0 {
        assert(ring.items + values =~= ring.items);
    } else {
        lemma_push_all_appends(ring.push(values[0]), values.drop_first());
        assert(ring.items.push(values[0]) + values.drop_first() =~= ring.items + values);
    }
}

/// Pops that find an item each remove the oldest one: after `n` of them the
/// first `n` items are gone and the head is `n` slots further.
pub proof fn lemma_pop_n_skips<T>(ring: RingView<T>, n: nat)
    requires
        ring.wf(),
        n <= ring.items.len(),
    ensures
        pop_n(ring, n) == (RingView {
            head: advance(ring.capacity, ring.head, n),
            items: ring.items.skip(n as int),
            ..ring
        }),
    decreases n,
{
    if n == 0 {
        assert(ring.items.skip(0) =~= ring.items);
    } else {
        lemma_pop_n_skips(ring.pop(), (n - 1) as nat);
        lemma_advance_twice(ring.capacity, ring.head, 1, (n - 1) as nat);
        assert(ring.items.drop_first().skip(n - 1) =~= ring.items.skip(n as int));
    }
}

/// First in, first out: after the values have been pushed onto an empty
/// buffer that has room for them, the pop number `k + 1` returns the value
/// number `k`, and the pops that follow the last value find the buffer
/// empty.
pub proof fn lemma_round_trip_is_fifo<T>(ring: RingView<T>, values: Seq<T>, k: nat)
    requires
        ring.wf(),
        ring.items.len() == 0,
        values.len() <= ring.max_advance(),
    ensures
        k < values.len() ==> pop_n(push_all(ring, values), k).pop_result() == Ok::<T, PopError>(
            values[k as int],
        ),
        pop_n(push_all(ring, values), values.len()).items.len() == 0,
        pop_n(push_all(ring, values), values.len()).pop_result() == Err::<T, PopError>(
            PopError::Empty,
        ),
{
    lemma_push_all_appends(ring, values);
    assert(ring.items + values =~= values);
    let full = push_all(ring, values);
    if k < values.len() {
        lemma_pop_n_skips(full, k);
    }
    lemma_pop_n_skips(full, values.len());
}

/// What the producer counts as free and what the consumer counts as ready
/// add up to the capacity.
pub proof fn lemma_slots_sum_to_capacity<T>(
    ring: RingView<T>,
    producer: ProducerView,
    consumer: ConsumerView,
)
    requires
        producer.tracks(ring),
        consumer.tracks(ring),
    ensures
        consumer.slots(ring) == ring.items.len(),
        producer.slots(ring) == ring.capacity - ring.items.len(),
        producer.slots(ring) + consumer.slots(ring) == ring.capacity,
{
    lemma_advance_distance(ring.capacity, ring.head, ring.items.len());
}

/// A pop from an empty buffer returns the error and changes neither the
/// buffer nor the consumer, so every repetition does the same.
pub proof fn lemma_pop_from_empty_changes_nothing<T>(
    ring: RingView<T>,
    consumer: ConsumerView,
    n: nat,
)
    requires
        consumer.tracks(ring),
        ring.items.len() == 0,
    ensures
        ring.pop_result() == Err::<T, PopError>(PopError::Empty),
        ring.pop() == ring,
        consumer.after_pop(ring) == consumer,
        pop_n(ring, n) == ring,
    decreases n,
{
    lemma_advance_distance(ring.capacity, ring.head, 0);
    if n > 0 {
        lemma_pop_from_empty_changes_nothing(ring, consumer, (n - 1) as nat);
    }
}

/// A push onto a buffer that accepts no more hands the value back and
/// leaves the buffer alone. The producer at most refreshes its cached head,
/// after which a further attempt changes nothing at all.
pub proof fn lemma_push_onto_full_changes_nothing<T>(
    ring: RingView<T>,
    producer: ProducerView,
    value: T,
)
    requires
        producer.tracks(ring),
        !ring.accepts(),
    ensures
        ring.push_result(value) == Err::<(), PushError<T>>(PushError::Full(value)),
        ring.push(value) == ring,
        producer.after_push(ring) == producer.refreshed(ring),
        producer.after_push(ring).tracks(ring),
        producer.after_push(ring).after_push(ring) == producer.after_push(ring),
{
    lemma_distance_splits(ring.capacity, producer.cached_head, ring.head, ring.items.len());
    lemma_advance_distance(ring.capacity, ring.head, ring.items.len());
}

/// The history window holds as many items as the consumer counts, and
/// shows at each of its indices, `index`, the item that the pop number
/// `index - head + 1` would return.
pub proof fn lemma_history_shows_what_pops_return<T>(
    ring: RingView<T>,
    consumer: ConsumerView,
    index: nat,
)
    requires
        consumer.tracks(ring),
    ensures
        ring.items.len() == consumer.slots(ring),
        ring.head <= index < ring.head + ring.items.len() ==> ring.at(index) is Some && pop_n(
            ring,
            (index - ring.head) as nat,
        ).pop_result() == Ok::<T, PopError>(ring.at(index)->0),
        !(ring.head <= index < ring.head + ring.items.len()) ==> ring.at(index) is None,
{
    lemma_advance_distance(ring.capacity, ring.head, ring.items.len());
    if ring.head <= index < ring.head + ring.items.len() {
        lemma_pop_n_skips(ring, (index - ring.head) as nat);
    }
}

/// What the producer itself can see of the fill level, the distance from
/// its cached head to its tail, is never below the real fill level and
/// never above `capacity - resend_window`.
pub proof fn lemma_producer_sees_at_most_max_advance<T>(ring: RingView<T>, producer: ProducerView)
    requires
        producer.tracks(ring),
    ensures
        ring.items.len() <= distance(
            producer.capacity,
            producer.cached_head,
            producer.cached_tail,
        ) <= ring.capacity - ring.resend_window,
{
    lemma_distance_splits(ring.capacity, producer.cached_head, ring.head, ring.items.len());
}

} // verus!
