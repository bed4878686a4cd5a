//! The reading side of the queue.

use core::marker::PhantomData;
use std::sync::Arc;
use vstd::prelude::*;
use crate::error::{PeekError, PopError};
use crate::history::HistoryWindow;
use crate::link::{abandoned_with, owner_count, Link};
use crate::model::ConsumerView;
use crate::position::{lemma_advance_distance, lemma_distance_zero};
use crate::ring::RingBuffer;

verus! {

/// The consumer side of a [`RingBuffer`].
///
/// Created by [`RingBuffer::new`] together with its counterpart, the
/// [`Producer`](crate::Producer). It keeps the head position, which only it
/// moves, and a copy of the tail position that may lag behind the real one.
/// The copy is refreshed only when it cannot show that an item is buffered.
#[derive(Debug)]
pub struct Consumer<T> {
    /// A copy of the buffer's head. It is always current.
    cached_head: usize,
    /// A copy of the buffer's tail. It can be stale.
    cached_tail: usize,
    /// This side's share of the token that both sides own.
    link: Arc<Link>,
    marker: PhantomData<T>,
}

impl<T> View for Consumer<T> {
    type V = ConsumerView;

    closed spec fn view(&self) -> ConsumerView {
        ConsumerView {
            cached_head: self.cached_head as nat,
            cached_tail: self.cached_tail as nat,
        }
    }
}

impl<T> Consumer<T> {
    /// The handle belongs to `buffer` in its present state.
    pub open spec fn tracks(&self, buffer: &RingBuffer<T>) -> bool {
        self@.tracks(buffer@)
    }

    /// The handle for a buffer that has just been created.
    pub(crate) fn attached(link: Arc<Link>) -> (consumer: Self)
        ensures
            consumer@ == ConsumerView::fresh(),
    {
        Consumer { cached_head: 0, cached_tail: 0, link, marker: PhantomData }
    }

    /// Attempts to pop an element from the queue.
    ///
    /// The oldest element is moved out of its slot and the head is moved one
    /// slot forward, which frees the slot for the producer. If nothing is
    /// buffered, neither the buffer nor the handle changes.
    pub fn pop(&mut self, buffer: &mut RingBuffer<T>) -> (result: Result<T, PopError>)
        requires
            old(self).tracks(old(buffer)),
        ensures
            final(self).tracks(final(buffer)),
            final(buffer)@ == old(buffer)@.pop(),
            final(self)@ == old(self)@.after_pop(old(buffer)@),
            result == old(buffer)@.pop_result(),
    {
        if let Some(head) = self.next_head(buffer) {
            let (value, head) = buffer.consume(head);
            self.cached_head = head;
            proof {
                lemma_advance_distance(
                    old(buffer)@.capacity,
                    old(buffer)@.head,
                    old(buffer)@.items.len(),
                );
            }
            Ok(value)
        } else {
            Err(PopError::Empty)
        }
    }

    /// Attempts to read the oldest element without removing it.
    pub fn peek<'a>(&mut self, buffer: &'a RingBuffer<T>) -> (result: Result<&'a T, PeekError>)
        requires
            old(self).tracks(buffer),
        ensures
            final(self).tracks(buffer),
            final(self)@ == old(self)@.after_check(buffer@),
            match result {
                Ok(item) => buffer@.items.len() > 0 && *item == buffer@.items[0],
                Err(error) => buffer@.items.len() == 0 && error == PeekError::Empty,
            },
    {
        if let Some(head) = self.next_head(buffer) {
            Ok(buffer.item(head))
        } else {
            Err(PeekError::Empty)
        }
    }

    /// Returns the number of slots available for reading.
    ///
    /// Loads the tail, refreshes the cached copy and counts the items
    /// between head and tail.
    pub fn slots(&mut self, buffer: &RingBuffer<T>) -> (ready: usize)
        requires
            old(self).tracks(buffer),
        ensures
            final(self).tracks(buffer),
            final(self)@ == old(self)@.refreshed(buffer@),
            ready == old(self)@.slots(buffer@),
            ready == buffer@.items.len(),
    {
        let tail = buffer.load_tail();
        self.cached_tail = tail;
        proof {
            lemma_advance_distance(buffer@.capacity, buffer@.head, buffer@.items.len());
        }
        buffer.distance(self.cached_head, tail)
    }

    /// Returns `true` if there are currently no slots available for reading.
    ///
    /// The tail is loaded only if the cached copy does not already show an
    /// item.
    pub fn is_empty(&mut self, buffer: &RingBuffer<T>) -> (empty: bool)
        requires
            old(self).tracks(buffer),
        ensures
            final(self).tracks(buffer),
            final(self)@ == old(self)@.after_check(buffer@),
            empty == (buffer@.items.len() == 0),
    {
        self.next_head(buffer).is_none()
    }

    /// Returns `true` if the corresponding [`Producer`](crate::Producer) has
    /// been dropped.
    ///
    /// The answer is [`abandoned_with`] of the number of owners that the
    /// shared token has when it is counted. Once it is `true` it stays
    /// `true`. It does not synchronise with what the producer did before it
    /// was dropped; the items that it left in the buffer can still be popped.
    pub fn is_abandoned(&self) -> bool {
        abandoned_with(owner_count(&self.link))
    }

    /// Gets the head position for reading the next slot, if an item is
    /// buffered.
    ///
    /// The cached tail is tried first. Only if it equals the head is the
    /// tail loaded and the test made again.
    pub fn next_head(&mut self, buffer: &RingBuffer<T>) -> (next: Option<usize>)
        requires
            old(self).tracks(buffer),
        ensures
            final(self).tracks(buffer),
            final(self)@ == old(self)@.after_check(buffer@),
            match next {
                Some(head) => buffer@.items.len() > 0 && head == buffer@.head,
                None => buffer@.items.len() == 0,
            },
    {
        let head = self.cached_head;
        proof {
            lemma_distance_zero(buffer@.capacity, self@.cached_head, self@.cached_tail);
            lemma_advance_distance(buffer@.capacity, buffer@.head, buffer@.items.len());
            lemma_distance_zero(buffer@.capacity, buffer@.head, buffer@.tail());
        }
        if head == self.cached_tail {
            let tail = buffer.load_tail();
            self.cached_tail = tail;
            if head == tail {
                return None;
            }
        }
        Some(head)
    }

    /// Gets read-only access to everything that is buffered.
    ///
    /// Loads the tail, refreshes the cached copy and returns the window from
    /// the head up to that tail.
    pub fn history<'a>(&mut self, buffer: &'a RingBuffer<T>) -> (window: HistoryWindow<'a, T>)
        requires
            old(self).tracks(buffer),
        ensures
            final(self).tracks(buffer),
            final(self)@ == old(self)@.refreshed(buffer@),
            window@ == buffer@,
    {
        let head = self.cached_head;
        let tail = buffer.load_tail();
        self.cached_tail = tail;
        proof {
            lemma_advance_distance(buffer@.capacity, buffer@.head, buffer@.items.len());
        }
        let distance = buffer.distance(head, tail);
        HistoryWindow::over(buffer, head, distance)
    }

    /// Gets the current head position.
    pub fn head(&self) -> (head: usize)
        ensures
            head == self@.cached_head,
    {
        self.cached_head
    }
}

} // verus!
