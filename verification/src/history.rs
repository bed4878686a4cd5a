//! Indexed, read-only access to the items that are buffered.

use vstd::prelude::*;
use crate::model::RingView;
use crate::position::lemma_advance_distance;
use crate::ring::RingBuffer;

verus! {

/// Read-only view of the items that were buffered when
/// [`Consumer::history`](crate::Consumer::history) was called.
///
/// The items are addressed by their absolute logical index: the first one
/// has the index [`start_index`](Self::start_index), which is the position
/// of the head, and each later one the next index. The window borrows the
/// buffer, so nothing can be pushed or popped while it is in use.
#[derive(Debug)]
pub struct HistoryWindow<'a, T> {
    buffer: &'a RingBuffer<T>,
    /// Index of the first item.
    start: usize,
    /// Number of items.
    length: usize,
}

impl<'a, T> View for HistoryWindow<'a, T> {
    type V = RingView<T>;

    closed spec fn view(&self) -> RingView<T> {
        self.buffer@
    }
}

impl<'a, T> HistoryWindow<'a, T> {
    /// The window spans exactly the buffered items of a well-formed buffer.
    #[verifier::type_invariant]
    spec fn wf(&self) -> bool {
        &&& self.buffer.wf()
        &&& self.start == self.buffer@.head
        &&& self.length == self.buffer@.items.len()
    }

    /// The window over everything that `buffer` holds.
    pub(crate) fn over(buffer: &'a RingBuffer<T>, start: usize, length: usize) -> (window: Self)
        requires
            start == buffer@.head,
            length == buffer@.items.len(),
        ensures
            window@ == buffer@,
    {
        proof {
            use_type_invariant(buffer);
        }
        HistoryWindow { buffer, start, length }
    }

    /// Gets the item at the absolute logical index `index`, or `None` if the
    /// index lies outside the window.
    pub fn get(&self, index: usize) -> (found: Option<&T>)
        ensures
            match found {
                Some(item) => self@.at(index as nat) == Some(*item),
                None => self@.at(index as nat) is None,
            },
    {
        proof {
            use_type_invariant(self);
        }
        if index < self.start || index >= self.start + self.length {
            return None;
        }
        let offset = index - self.start;
        proof {
            lemma_advance_distance(self@.capacity, self@.head, offset as nat);
        }
        let pos = self.buffer.increment(self.start, offset);
        Some(self.buffer.item(pos))
    }

    /// Iterates over the items of the window, oldest first.
    pub fn iter(&self) -> (iter: HistoryIter<'_, T>)
        ensures
            iter@ == self@.items,
    {
        proof {
            use_type_invariant(self);
        }
        HistoryIter { window: self, current: self.start, remaining: self.length }
    }

    /// Gets the index of the first item.
    pub fn start_index(&self) -> (index: usize)
        ensures
            index == self@.head,
    {
        proof {
            use_type_invariant(self);
        }
        self.start
    }

    /// Gets the index behind the last item.
    pub fn end_index(&self) -> (index: usize)
        ensures
            index == self@.head + self@.items.len(),
    {
        proof {
            use_type_invariant(self);
        }
        self.start + self.length
    }

    /// Gets the number of items in the window.
    pub fn len(&self) -> (length: usize)
        ensures
            length == self@.items.len(),
    {
        proof {
            use_type_invariant(self);
        }
        self.length
    }

    /// Checks whether the window holds no item.
    pub fn is_empty(&self) -> (empty: bool)
        ensures
            empty == (self@.items.len() == 0),
    {
        proof {
            use_type_invariant(self);
        }
        self.length == 0
    }
}

/// A single pass over the items of a [`HistoryWindow`], oldest first.
#[derive(Debug)]
pub struct HistoryIter<'a, T> {
    window: &'a HistoryWindow<'a, T>,
    /// Index of the next item.
    current: usize,
    /// Number of items that are still to come.
    remaining: usize,
}

impl<'a, T> View for HistoryIter<'a, T> {
    type V = Seq<T>;

    /// The items that are still to come, in the order in which they come.
    closed spec fn view(&self) -> Seq<T> {
        self.window@.items.skip(self.window@.items.len() - self.remaining)
    }
}

impl<'a, T> HistoryIter<'a, T> {
    /// The pass has covered a prefix of the window.
    #[verifier::type_invariant]
    spec fn wf(&self) -> bool {
        &&& self.remaining <= self.window@.items.len()
        &&& self.current == self.window@.head + self.window@.items.len() - self.remaining
    }

    /// Hands out the next item, or `None` once all have been handed out.
    pub fn next(&mut self) -> (item: Option<&'a T>)
        ensures
            match item {
                Some(item) => old(self)@.len() > 0 && *item == old(self)@[0] && final(self)@
                    == old(self)@.drop_first(),
                None => old(self)@.len() == 0 && final(self)@ == old(self)@,
            },
    {
        proof {
            use_type_invariant(&*self);
            use_type_invariant(self.window);
        }
        if self.remaining == 0 {
            return None;
        }
        let result = self.window.get(self.current);
        *self = HistoryIter {
            window: self.window,
            current: self.current + 1,
            remaining: self.remaining - 1,
        };
        proof {
            assert(self@ =~= old(self)@.drop_first());
        }
        result
    }

    /// The number of items that are still to come, as lower and upper bound.
    pub fn size_hint(&self) -> (hint: (usize, Option<usize>))
        ensures
            hint.0 == self@.len(),
            hint.1 == Some(hint.0),
    {
        proof {
            use_type_invariant(self);
        }
        (self.remaining, Some(self.remaining))
    }
}

} // verus!
