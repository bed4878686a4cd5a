//! How one side of the queue learns that the other side is gone.
//!
//! The two handles of a buffer jointly own a token that holds nothing and is
//! only counted. When a handle is dropped its share goes with it, and the
//! handle that is left finds itself the sole owner. The count is read without
//! synchronising with the other side: it is a hint, not a barrier.

use std::sync::Arc;
use vstd::prelude::*;

verus! {

/// The token that the handles of one buffer share.
#[derive(Debug)]
pub(crate) struct Link {}

/// Calls `Arc::strong_count`, which returns the number of owners that the
/// token has at the moment of the call. That number depends on what the
/// other owner has done by then, so nothing is claimed of it.
#[verifier::external_body]
pub(crate) fn owner_count(link: &Arc<Link>) -> (owners: usize) {
    Arc::strong_count(link)
}

/// Whether a handle that counts `owners` owners of its token has lost its
/// counterpart: a pair of handles makes two owners.
pub fn abandoned_with(owners: usize) -> (abandoned: bool)
    ensures
        abandoned == (owners < 2),
{
    owners < 2
}

} // verus!
