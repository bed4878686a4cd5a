//! The writing side of the queue.

use core::marker::PhantomData;
use std::sync::Arc;
use vstd::prelude::*;
use crate::error::PushError;
use crate::link::{abandoned_with, owner_count, Link};
use crate::model::ProducerView;
use crate::position::{lemma_advance_distance, lemma_distance_splits};
use crate::ring::RingBuffer;

verus! {

/// The producer side of a [`RingBuffer`].
///
/// Created by [`RingBuffer::new`] together with its counterpart, the
/// [`Consumer`](crate::Consumer). It keeps the tail position, which only it
/// moves, and a copy of the head position that may lag behind the real one.
/// The copy is refreshed only when it cannot show that a slot is free.
#[derive(Debug)]
pub struct Producer<T> {
    /// A copy of the buffer's head. It can be stale.
    cached_head: usize,
    /// A copy of the buffer's tail. It is always current.
    cached_tail: usize,
    /// Capacity of the buffer.
    capacity: usize,
    /// Capacity minus resend window.
    max_advance: usize,
    /// This side's share of the token that both sides own.
    link: Arc<Link>,
    marker: PhantomData<T>,
}

impl<T> View for Producer<T> {
    type V = ProducerView;

    closed spec fn view(&self) -> ProducerView {
        ProducerView {
            capacity: self.capacity as nat,
            max_advance: self.max_advance as nat,
            cached_head: self.cached_head as nat,
            cached_tail: self.cached_tail as nat,
        }
    }
}

impl<T> Producer<T> {
    /// The handle belongs to `buffer` in its present state.
    pub open spec fn tracks(&self, buffer: &RingBuffer<T>) -> bool {
        self@.tracks(buffer@)
    }

    /// The handle for a buffer that has just been created.
    pub(crate) fn attached(capacity: usize, resend_window: usize, link: Arc<Link>) -> (producer:
        Self)
        requires
            resend_window <= capacity,
        ensures
            producer@ == ProducerView::fresh(capacity as nat, resend_window as nat),
    {
        Producer {
            cached_head: 0,
            cached_tail: 0,
            capacity,
            max_advance: capacity - resend_window,
            link,
            marker: PhantomData,
        }
    }

    /// Attempts to push an element into the queue.
    ///
    /// The element is moved into the slot at the tail and the tail is
    /// moved one slot forward, which makes the element available to the
    /// consumer. If the producer is already `max_advance` slots ahead of the
    /// head, nothing is written and the element is handed back in the error.
    pub fn push(&mut self, buffer: &mut RingBuffer<T>, value: T) -> (result: Result<
        (),
        PushError<T>,
    >)
        requires
            old(self).tracks(old(buffer)),
        ensures
            final(self).tracks(final(buffer)),
            final(buffer)@ == old(buffer)@.push(value),
            final(self)@ == old(self)@.after_push(old(buffer)@),
            result == old(buffer)@.push_result(value),
    {
        if let Some(tail) = self.next_tail(buffer) {
            let tail = buffer.publish(tail, value);
            self.cached_tail = tail;
            proof {
                lemma_advance_distance(
                    old(buffer)@.capacity,
                    old(buffer)@.head,
                    old(buffer)@.items.len(),
                );
            }
            Ok(())
        } else {
            Err(PushError::Full(value))
        }
    }

    /// Returns the number of slots available for writing.
    ///
    /// Loads the head, refreshes the cached copy and counts the slots that
    /// hold no item. The slots of the resend window are counted too, although
    /// the producer will not advance into them.
    pub fn slots(&mut self, buffer: &RingBuffer<T>) -> (free: usize)
        requires
            old(self).tracks(buffer),
        ensures
            final(self).tracks(buffer),
            final(self)@ == old(self)@.refreshed(buffer@),
            free == old(self)@.slots(buffer@),
            free == buffer@.capacity - buffer@.items.len(),
    {
        let head = buffer.load_head();
        self.cached_head = head;
        proof {
            lemma_advance_distance(buffer@.capacity, buffer@.head, buffer@.items.len());
        }
        self.capacity - buffer.distance(head, self.cached_tail)
    }

    /// Returns `true` if there are currently no slots available for writing.
    ///
    /// The head is loaded only if the cached copy does not already show a
    /// free slot.
    pub fn is_full(&mut self, buffer: &RingBuffer<T>) -> (full: bool)
        requires
            old(self).tracks(buffer),
        ensures
            final(self).tracks(buffer),
            final(self)@ == old(self)@.after_check(buffer@),
            full == !buffer@.accepts(),
    {
        self.next_tail(buffer).is_none()
    }

    /// Returns `true` if the corresponding [`Consumer`](crate::Consumer) has
    /// been dropped.
    ///
    /// The answer is [`abandoned_with`] of the number of owners that the
    /// shared token has when it is counted. Once it is `true` it stays
    /// `true`. It does not synchronise with what the consumer did before it
    /// was dropped.
    pub fn is_abandoned(&self) -> bool {
        abandoned_with(owner_count(&self.link))
    }

    /// Returns the most slots that the producer may ever be ahead of the
    /// head: the capacity minus the resend window.
    pub fn max_advance(&self) -> (limit: usize)
        ensures
            limit == self@.max_advance,
    {
        self.max_advance
    }

    /// Gets the tail position for writing the next slot, if one is free.
    ///
    /// The cached head is tried first. Only if it shows no room is the head
    /// loaded and the test made again.
    pub fn next_tail(&mut self, buffer: &RingBuffer<T>) -> (next: Option<usize>)
        requires
            old(self).tracks(buffer),
        ensures
            final(self).tracks(buffer),
            final(self)@ == old(self)@.after_check(buffer@),
            match next {
                Some(tail) => buffer@.accepts() && tail == buffer@.tail(),
                None => !buffer@.accepts(),
            },
    {
        let tail = self.cached_tail;
        proof {
            lemma_distance_splits(
                buffer@.capacity,
                self@.cached_head,
                buffer@.head,
                buffer@.items.len(),
            );
            lemma_advance_distance(buffer@.capacity, buffer@.head, buffer@.items.len());
        }
        if buffer.distance(self.cached_head, tail) >= self.max_advance() {
            let head = buffer.load_head();
            self.cached_head = head;
            if buffer.distance(head, tail) >= self.max_advance() {
                return None;
            }
        }
        Some(tail)
    }
}

} // verus!
