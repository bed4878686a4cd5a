//! The shared state of the queue: the slots and the two position counters.

use std::sync::Arc;
use vstd::prelude::*;
use crate::consumer::Consumer;
use crate::link::Link;
use crate::model::{ConsumerView, ProducerView, RingView};
use crate::position::{
    advance, collapse, distance, lemma_slot_steps_inverse, slot_ahead, steps_to_slot,
    valid_position,
};
use crate::producer::Producer;

verus! {

/// A bounded single-producer single-consumer queue.
///
/// Items are written through a [`Producer`](crate::Producer) and read
/// through a [`Consumer`](crate::Consumer); [`RingBuffer::new`] creates all
/// three. The buffer never holds more than `capacity - resend_window` items:
/// the remaining slots are slack that the producer does not advance into.
#[derive(Debug)]
pub struct RingBuffer<T> {
    /// Position of the oldest item, in `0 .. 2 * capacity`.
    head: usize,
    /// Position that the next item is written to, in `0 .. 2 * capacity`.
    tail: usize,
    /// The slots. A slot holds an item exactly while its position lies
    /// between `head` and `tail`.
    slots: Vec<Option<T>>,
    /// Number of slots.
    capacity: usize,
    /// Number of slots kept free behind the producer's reach.
    resend_window: usize,
}

impl<T> View for RingBuffer<T> {
    type V = RingView<T>;

    closed spec fn view(&self) -> RingView<T> {
        RingView {
            capacity: self.capacity as nat,
            resend_window: self.resend_window as nat,
            head: self.head as nat,
            items: Seq::new(
                distance(self.capacity as nat, self.head as nat, self.tail as nat),
                |k: int| self.slots@[self.slot_of_item(k)]->0,
            ),
        }
    }
}

impl<T> RingBuffer<T> {
    /// Index of the slot that holds the `k`-th buffered item.
    closed spec fn slot_of_item(&self, k: int) -> int {
        slot_ahead(self.capacity as nat, self.head as nat, k as nat) as int
    }

    /// The invariant of the representation: there are `capacity` slots, the
    /// tail is a position of this buffer, and exactly the slots between head
    /// and tail hold an item.
    pub closed spec fn slots_wf(&self) -> bool {
        &&& self.slots@.len() == self.capacity
        &&& valid_position(self.capacity as nat, self.tail as nat)
        &&& forall|j: int|
            0 <= j < self.capacity ==> (#[trigger] self.slots@[j] is Some <==> steps_to_slot(
                self.capacity as nat,
                self.head as nat,
                j as nat,
            ) < distance(self.capacity as nat, self.head as nat, self.tail as nat))
    }

    /// What holds of every buffer: the representation is sound, the abstract
    /// state is one that [`RingView::wf`] admits, and every index of a
    /// history window (up to `3 * capacity`) fits the machine word.
    #[verifier::type_invariant]
    pub open spec fn wf(&self) -> bool {
        &&& self.slots_wf()
        &&& self@.wf()
        &&& 3 * self@.capacity <= usize::MAX
    }

    /// Creates a `RingBuffer` with the given `capacity` and `resend_window`
    /// and returns it with its [`Producer`] and its [`Consumer`].
    ///
    /// The buffer starts empty, with both counters at zero. A capacity of
    /// zero is allowed: such a buffer is always both empty and full. The
    /// resend window must not exceed the capacity.
    #[must_use]
    pub fn new(capacity: usize, resend_window: usize) -> (made: (
        RingBuffer<T>,
        Producer<T>,
        Consumer<T>,
    ))
        requires
            resend_window <= capacity,
            3 * capacity <= usize::MAX,
        ensures
            made.0@ == RingView::<T>::empty(capacity as nat, resend_window as nat),
            made.1@ == ProducerView::fresh(capacity as nat, resend_window as nat),
            made.2@ == ConsumerView::fresh(),
            made.1.tracks(&made.0),
            made.2.tracks(&made.0),
    {
        let mut slots: Vec<Option<T>> = Vec::with_capacity(capacity);
        let mut filled: usize = 0;
        while filled < capacity
            invariant
                filled <= capacity,
                slots@.len() == filled,
                forall|j: int| 0 <= j < filled ==> slots@[j] is None,
            decreases capacity - filled,
        {
            slots.push(None);
            filled += 1;
        }
        let buffer = RingBuffer { head: 0, tail: 0, slots, capacity, resend_window };
        proof {
            assert(buffer@.items =~= Seq::<T>::empty());
        }
        let link = Arc::new(Link {});
        let producer = Producer::attached(capacity, resend_window, Arc::clone(&link));
        (buffer, producer, Consumer::attached(link))
    }

    /// Returns the capacity of the queue.
    pub fn capacity(&self) -> (capacity: usize)
        ensures
            capacity == self@.capacity,
    {
        self.capacity
    }

    /// Returns the resend window size of the queue.
    pub fn resend_window(&self) -> (resend_window: usize)
        ensures
            resend_window == self@.resend_window,
    {
        self.resend_window
    }

    /// Wraps a position from the range `0 .. 2 * capacity` to a slot index
    /// in `0 .. capacity`.
    pub fn collapse_position(&self, pos: usize) -> (slot: usize)
        requires
            valid_position(self@.capacity, pos as nat),
        ensures
            slot == collapse(self@.capacity, pos as nat),
    {
        if pos < self.capacity {
            pos
        } else {
            pos - self.capacity
        }
    }

    /// Increments a position by going `n` slots forward.
    pub fn increment(&self, pos: usize, n: usize) -> (next: usize)
        requires
            valid_position(self@.capacity, pos as nat),
            n <= self@.capacity,
        ensures
            next == advance(self@.capacity, pos as nat, n as nat),
            valid_position(self@.capacity, next as nat),
    {
        proof {
            use_type_invariant(self);
        }
        let threshold = 2 * self.capacity - n;
        if pos < threshold {
            pos + n
        } else {
            pos - threshold
        }
    }

    /// Increments a position by going one slot forward.
    pub fn increment1(&self, pos: usize) -> (next: usize)
        requires
            self@.capacity != 0,
            pos < 2 * self@.capacity,
        ensures
            next == advance(self@.capacity, pos as nat, 1),
            next < 2 * self@.capacity,
    {
        proof {
            use_type_invariant(self);
        }
        if pos < 2 * self.capacity - 1 {
            pos + 1
        } else {
            0
        }
    }

    /// Returns the distance between two positions.
    pub fn distance(&self, a: usize, b: usize) -> (slots: usize)
        requires
            valid_position(self@.capacity, a as nat),
            valid_position(self@.capacity, b as nat),
        ensures
            slots == distance(self@.capacity, a as nat, b as nat),
    {
        proof {
            use_type_invariant(self);
        }
        if a <= b {
            b - a
        } else {
            2 * self.capacity - a + b
        }
    }

    /// Reads the head counter.
    pub(crate) fn load_head(&self) -> (head: usize)
        ensures
            head == self@.head,
            valid_position(self@.capacity, head as nat),
    {
        proof {
            use_type_invariant(self);
        }
        self.head
    }

    /// Reads the tail counter.
    pub(crate) fn load_tail(&self) -> (tail: usize)
        ensures
            tail == self@.tail(),
            valid_position(self@.capacity, tail as nat),
    {
        proof {
            use_type_invariant(self);
        }
        self.tail
    }

    /// Writes `value` into the slot at `tail`, which is the tail, and stores
    /// the position one slot further as the new tail. Returns the new tail.
    pub(crate) fn publish(&mut self, tail: usize, value: T) -> (next: usize)
        requires
            old(self)@.accepts(),
            tail == old(self)@.tail(),
        ensures
            final(self)@ == old(self)@.push(value),
            next == final(self)@.tail(),
    {
        proof {
            use_type_invariant(&*self);
        }
        let next = self.increment1(tail);
        let slot = self.collapse_position(tail);
        let ghost cap = self.capacity as nat;
        let ghost head = self.head as nat;
        let ghost len = self@.items.len();
        proof {
            let written = self.slots@.update(slot as int, Some(value));
            assert forall|j: int| 0 <= j < cap implies (#[trigger] written[j] is Some
                <==> steps_to_slot(cap, head, j as nat) < len + 1) by {
                lemma_slot_steps_inverse(cap, head, len, j as nat);
                assert(self.slots@[j] is Some <==> steps_to_slot(cap, head, j as nat) < len);
            }
        }
        exchange(&mut self.slots, &mut self.tail, slot, Some(value), next);
        proof {
            assert forall|k: int| 0 <= k < len implies self.slots@[self.slot_of_item(k)]
                == old(self).slots@[old(self).slot_of_item(k)] by {
                lemma_slot_steps_inverse(cap, head, k as nat, slot as nat);
                lemma_slot_steps_inverse(cap, head, len, slot as nat);
            }
            assert(self@.items =~= old(self)@.items.push(value));
        }
        next
    }

    /// Moves the item out of the slot at `head`, which is the head, and
    /// stores the position one slot further as the new head. Returns the item
    /// and the new head.
    pub(crate) fn consume(&mut self, head: usize) -> (taken: (T, usize))
        requires
            old(self)@.items.len() > 0,
            head == old(self)@.head,
        ensures
            final(self)@ == old(self)@.pop(),
            taken.0 == old(self)@.items[0],
            taken.1 == final(self)@.head,
    {
        proof {
            use_type_invariant(&*self);
        }
        let next = self.increment1(head);
        let slot = self.collapse_position(head);
        let ghost cap = self.capacity as nat;
        let ghost len = self@.items.len();
        proof {
            lemma_slot_steps_inverse(cap, head as nat, 0, slot as nat);
            let emptied = self.slots@.update(slot as int, None);
            assert forall|j: int| 0 <= j < cap implies (#[trigger] emptied[j] is Some
                <==> steps_to_slot(cap, next as nat, j as nat) < len - 1) by {
                assert(self.slots@[j] is Some <==> steps_to_slot(cap, head as nat, j as nat)
                    < len);
            }
        }
        let value = exchange(&mut self.slots, &mut self.head, slot, None, next);
        proof {
            assert forall|k: int| 0 <= k < len - 1 implies self.slots@[self.slot_of_item(k)]
                == old(self).slots@[old(self).slot_of_item(k + 1)] by {
                lemma_slot_steps_inverse(cap, head as nat, (k + 1) as nat, slot as nat);
            }
            assert(self@.items =~= old(self)@.items.drop_first());
        }
        (value.unwrap(), next)
    }

    /// Borrows the item at position `pos`, which lies between head and tail.
    pub(crate) fn item(&self, pos: usize) -> (item: &T)
        requires
            valid_position(self@.capacity, pos as nat),
            distance(self@.capacity, self@.head, pos as nat) < self@.items.len(),
        ensures
            *item == self@.items[distance(self@.capacity, self@.head, pos as nat) as int],
    {
        let slot = self.collapse_position(pos);
        proof {
            use_type_invariant(self);
            let k = distance(self.capacity as nat, self.head as nat, pos as nat);
            lemma_slot_steps_inverse(self.capacity as nat, self.head as nat, k, slot as nat);
        }
        self.slots[slot].as_ref().unwrap()
    }
}

/// Puts `content` into the slot and `next` into the counter, as one step,
/// and returns what the slot held before.
fn exchange<T>(
    slots: &mut Vec<Option<T>>,
    counter: &mut usize,
    slot: usize,
    content: Option<T>,
    next: usize,
) -> (previous: Option<T>)
    requires
        slot < old(slots)@.len(),
    ensures
        final(slots)@ == old(slots)@.update(slot as int, content),
        *final(counter) == next,
        previous == old(slots)@[slot as int],
    no_unwind
{
    let mut held = content;
    core::mem::swap(&mut slots[slot], &mut held);
    *counter = next;
    held
}

} // verus!
