//! The outcomes of operations that cannot proceed.
//!
//! A full or an empty queue is an ordinary, expected condition: the caller
//! decides whether to retry, drop or redirect.

use vstd::prelude::*;

verus! {

/// Error type for [`Consumer::pop`](crate::Consumer::pop).
#[derive(Debug, Copy, Clone, PartialEq, Eq)]
pub enum PopError {
    /// The queue was empty.
    Empty,
}

impl PopError {
    /// The message that describes the error.
    pub fn to_string(&self) -> (text: String)
        ensures
            text@ == "empty ring buffer"@,
    {
        "empty ring buffer".to_owned()
    }
}

/// Error type for [`Consumer::peek`](crate::Consumer::peek).
#[derive(Debug, Copy, Clone, PartialEq, Eq)]
pub enum PeekError {
    /// The queue was empty.
    Empty,
}

impl PeekError {
    /// The message that describes the error.
    pub fn to_string(&self) -> (text: String)
        ensures
            text@ == "empty ring buffer"@,
    {
        "empty ring buffer".to_owned()
    }
}

/// Error type for [`Producer::push`](crate::Producer::push).
#[derive(Debug, PartialEq, Eq)]
pub enum PushError<T> {
    /// The queue was full. The rejected item is handed back.
    Full(T),
}

impl<T: Clone> Clone for PushError<T> {
    /// The error with a clone of the rejected item.
    fn clone(&self) -> (copy: Self)
        ensures
            match (*self, copy) {
                (PushError::Full(value), PushError::Full(cloned_value)) => cloned::<T>(
                    value,
                    cloned_value,
                ),
            },
    {
        match self {
            PushError::Full(value) => PushError::Full(value.clone()),
        }
    }
}

impl<T: Copy> Copy for PushError<T> {}

impl<T> PushError<T> {
    /// The message that describes the error.
    pub fn to_string(&self) -> (text: String)
        ensures
            text@ == "full ring buffer"@,
    {
        "full ring buffer".to_owned()
    }
}

} // verus!
