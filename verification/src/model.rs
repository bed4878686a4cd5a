//! The mathematical model that the contracts of this crate are stated over.
//!
//! [`RingView`] is what a [`RingBuffer`](crate::RingBuffer) holds: its fixed
//! configuration, the position of its oldest item and the buffered items in
//! the order in which they were pushed. [`ProducerView`] and
//! [`ConsumerView`] are the counters that the two sides cache.

use vstd::prelude::*;
use crate::error::{PopError, PushError};
use crate::position::{advance, distance, valid_position};

verus! {

/// The abstract state of a ring buffer.
pub struct RingView<T> {
    /// Number of slots.
    pub capacity: nat,
    /// Number of slots that the producer never advances into.
    pub resend_window: nat,
    /// Position of the oldest buffered item.
    pub head: nat,
    /// The buffered items, oldest first.
    pub items: Seq<T>,
}

impl<T> RingView<T> {
    /// The most items that may ever be buffered at once.
    pub open spec fn max_advance(self) -> nat {
        (self.capacity - self.resend_window) as nat
    }

    /// Position that the next pushed item is written to.
    pub open spec fn tail(self) -> nat {
        advance(self.capacity, self.head, self.items.len())
    }

    /// The resend window fits into the capacity, the head is a position of
    /// this buffer, and the producer has not advanced into the resend window.
    pub open spec fn wf(self) -> bool {
        &&& self.resend_window <= self.capacity
        &&& valid_position(self.capacity, self.head)
        &&& self.items.len() <= self.max_advance()
    }

    /// The state right after construction.
    pub open spec fn empty(capacity: nat, resend_window: nat) -> Self {
        RingView { capacity, resend_window, head: 0, items: Seq::empty() }
    }

    /// Whether a push is accepted: the producer is less than `max_advance`
    /// slots ahead of the head.
    pub open spec fn accepts(self) -> bool {
        self.items.len() < self.max_advance()
    }

    /// The state after an attempt to push `value`: appended if accepted,
    /// unchanged otherwise.
    pub open spec fn push(self, value: T) -> Self {
        if self.accepts() {
            RingView { items: self.items.push(value), ..self }
        } else {
            self
        }
    }

    /// What an attempt to push `value` returns: success if accepted, the
    /// value handed back otherwise.
    pub open spec fn push_result(self, value: T) -> Result<(), PushError<T>> {
        if self.accepts() {
            Ok(())
        } else {
            Err(PushError::Full(value))
        }
    }

    /// What an attempt to pop returns: the oldest item, or the error if
    /// nothing is buffered.
    pub open spec fn pop_result(self) -> Result<T, PopError> {
        if self.items.len() > 0 {
            Ok(self.items[0])
        } else {
            Err(PopError::Empty)
        }
    }

    /// The state after an attempt to pop: the oldest item removed and the
    /// head one slot further, or unchanged if nothing is buffered.
    pub open spec fn pop(self) -> Self {
        if self.items.len() > 0 {
            RingView {
                head: advance(self.capacity, self.head, 1),
                items: self.items.drop_first(),
                ..self
            }
        } else {
            self
        }
    }

    /// The item at the absolute logical index `index`, counted from the
    /// head's position, if the index lies in the buffered range.
    pub open spec fn at(self, index: nat) -> Option<T> {
        if self.head <= index < self.head + self.items.len() {
            Some(self.items[index - self.head])
        } else {
            None
        }
    }
}

/// What a producer handle holds.
pub struct ProducerView {
    /// Capacity of the buffer that the handle was created with.
    pub capacity: nat,
    /// The most slots that the producer may be ahead of the head.
    pub max_advance: nat,
    /// A head position seen earlier; the real head may be further on.
    pub cached_head: nat,
    /// The tail position, always current.
    pub cached_tail: nat,
}

impl ProducerView {
    /// The handle right after construction.
    pub open spec fn fresh(capacity: nat, resend_window: nat) -> Self {
        ProducerView {
            capacity,
            max_advance: (capacity - resend_window) as nat,
            cached_head: 0,
            cached_tail: 0,
        }
    }

    /// The handle belongs to this buffer state: the state is well-formed,
    /// the configuration is the same, the cached tail is the tail, and the
    /// cached head lies at or behind the head, no more than `max_advance`
    /// slots behind the tail.
    pub open spec fn tracks<T>(self, ring: RingView<T>) -> bool {
        &&& ring.wf()
        &&& self.capacity == ring.capacity
        &&& self.max_advance == ring.max_advance()
        &&& self.cached_tail == ring.tail()
        &&& valid_position(self.capacity, self.cached_head)
        &&& distance(self.capacity, self.cached_head, ring.head) + ring.items.len()
            <= ring.max_advance()
    }

    /// The cached counters alone show that a slot is free.
    pub open spec fn sees_room(self) -> bool {
        distance(self.capacity, self.cached_head, self.cached_tail) < self.max_advance
    }

    /// The handle after it has loaded the head.
    pub open spec fn refreshed<T>(self, ring: RingView<T>) -> Self {
        ProducerView { cached_head: ring.head, ..self }
    }

    /// The handle after it has looked for a free slot: untouched if the
    /// cached counters show one, refreshed otherwise.
    pub open spec fn after_check<T>(self, ring: RingView<T>) -> Self {
        if self.sees_room() {
            self
        } else {
            self.refreshed(ring)
        }
    }

    /// The handle after an attempt to push onto `ring`.
    pub open spec fn after_push<T>(self, ring: RingView<T>) -> Self {
        if ring.accepts() {
            ProducerView {
                cached_tail: advance(self.capacity, self.cached_tail, 1),
                ..self.after_check(ring)
            }
        } else {
            self.after_check(ring)
        }
    }

    /// Slots that are free for writing, the resend window among them.
    pub open spec fn slots<T>(self, ring: RingView<T>) -> nat {
        (self.capacity - distance(self.capacity, ring.head, self.cached_tail)) as nat
    }
}

/// What a consumer handle holds.
pub struct ConsumerView {
    /// The head position, always current.
    pub cached_head: nat,
    /// A tail position seen earlier; the real tail may be further on.
    pub cached_tail: nat,
}

impl ConsumerView {
    /// The handle right after construction.
    pub open spec fn fresh() -> Self {
        ConsumerView { cached_head: 0, cached_tail: 0 }
    }

    /// The handle belongs to this buffer state: the state is well-formed,
    /// the cached head is the head, and the cached tail lies between head
    /// and tail.
    pub open spec fn tracks<T>(self, ring: RingView<T>) -> bool {
        &&& ring.wf()
        &&& self.cached_head == ring.head
        &&& valid_position(ring.capacity, self.cached_tail)
        &&& distance(ring.capacity, ring.head, self.cached_tail) <= ring.items.len()
    }

    /// The cached counters alone show that an item is buffered.
    pub open spec fn sees_item(self) -> bool {
        self.cached_head != self.cached_tail
    }

    /// The handle after it has loaded the tail.
    pub open spec fn refreshed<T>(self, ring: RingView<T>) -> Self {
        ConsumerView { cached_tail: ring.tail(), ..self }
    }

    /// The handle after it has looked for an item: untouched if the cached
    /// counters show one, refreshed otherwise.
    pub open spec fn after_check<T>(self, ring: RingView<T>) -> Self {
        if self.sees_item() {
            self
        } else {
            self.refreshed(ring)
        }
    }

    /// The handle after an attempt to pop from `ring`.
    pub open spec fn after_pop<T>(self, ring: RingView<T>) -> Self {
        if ring.items.len() > 0 {
            ConsumerView {
                cached_head: advance(ring.capacity, self.cached_head, 1),
                ..self.after_check(ring)
            }
        } else {
            self.after_check(ring)
        }
    }

    /// Items that are ready for reading.
    pub open spec fn slots<T>(self, ring: RingView<T>) -> nat {
        distance(ring.capacity, self.cached_head, ring.tail())
    }
}

/// A buffer together with its two handles.
pub struct QueueView<T> {
    /// The buffer.
    pub ring: RingView<T>,
    /// The producer handle.
    pub producer: ProducerView,
    /// The consumer handle.
    pub consumer: ConsumerView,
}

impl<T> QueueView<T> {
    /// The buffer is well-formed and both handles belong to it.
    pub open spec fn wf(self) -> bool {
        &&& self.ring.wf()
        &&& self.producer.tracks(self.ring)
        &&& self.consumer.tracks(self.ring)
    }

    /// The buffer and the handles right after construction.
    pub open spec fn fresh(capacity: nat, resend_window: nat) -> Self {
        QueueView {
            ring: RingView::empty(capacity, resend_window),
            producer: ProducerView::fresh(capacity, resend_window),
            consumer: ConsumerView::fresh(),
        }
    }
}

} // verus!
