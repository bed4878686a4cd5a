//! A bounded single-producer single-consumer queue on a ring of slots, with
//! a resend window and an indexed history window.
//!
//! [`RingBuffer::new`] creates the buffer and its two handles. The
//! [`Producer`] moves items in, the [`Consumer`] moves them out in the same
//! order, and no operation ever waits: a push onto a full buffer hands the
//! item back, a pop from an empty one reports that nothing is there.
//!
//! ```
//! use rtrb::{PopError, PushError, RingBuffer};
//!
//! let (mut buffer, mut producer, mut consumer) = RingBuffer::new(2, 0);
//!
//! assert_eq!(producer.push(&mut buffer, 10), Ok(()));
//! assert_eq!(producer.push(&mut buffer, 20), Ok(()));
//! assert_eq!(producer.push(&mut buffer, 30), Err(PushError::Full(30)));
//!
//! assert_eq!(consumer.pop(&mut buffer), Ok(10));
//! assert_eq!(consumer.pop(&mut buffer), Ok(20));
//! assert_eq!(consumer.pop(&mut buffer), Err(PopError::Empty));
//! ```
//!
//! # Positions
//!
//! Head and tail are counters in `0 .. 2 * capacity`, not slot indices.
//! Equal counters mean that the buffer is empty, a distance of `capacity`
//! means that it is full, and neither an element count nor a spare slot is
//! needed to tell the two apart. The arithmetic is in [`position`].
//!
//! # Cached counters
//!
//! Each side moves one of the counters and keeps a copy of the other, which
//! it reads again only when the copy cannot answer: the producer when its
//! copy of the head shows no free slot, the consumer when its copy of the
//! tail shows no item. A stale copy errs on the safe side only. That is the
//! invariant [`model::ProducerView::tracks`] and
//! [`model::ConsumerView::tracks`], which every operation of either side
//! maintains for both.
//!
//! # Resend window
//!
//! The producer never gets more than `capacity - resend_window` slots ahead
//! of the head, even where slots beyond that are free. The rest of the ring
//! is slack that a protocol built on top may count on.
//!
//! # History window
//!
//! [`Consumer::history`] gives indexed, read-only access to everything that
//! is buffered, addressed by absolute logical index from the head on.
//!
//! # Ownership
//!
//! The buffer is handed to each operation: by exclusive reference where the
//! operation moves a counter, by shared reference where it only reads. The
//! rules of borrowing thereby exclude that a history window is used after a
//! pop, or that both sides move items at once. The handles themselves own
//! nothing but their counters and a token by which each can tell whether the
//! other is still alive.
//!
//! # What is proved
//!
//! Every operation carries a contract over the model in [`model`], and the
//! laws that follow for runs of operations are proved in [`laws`]: items
//! come out first in, first out under every interleaving of the two sides,
//! the fill level never exceeds `capacity - resend_window`, the counts of the
//! two sides add up to the capacity, failed operations change nothing, and
//! the history window shows what the pops would return.

pub mod consumer;
pub mod error;
pub mod history;
pub mod laws;
pub mod link;
pub mod model;
pub mod position;
pub mod producer;
pub mod ring;

pub use consumer::Consumer;
pub use error::{PeekError, PopError, PushError};
pub use history::{HistoryIter, HistoryWindow};
pub use producer::Producer;
pub use ring::RingBuffer;
