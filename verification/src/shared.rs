//! Shared handles.

use vstd::prelude::*;
use std::sync::Arc;

verus! {

/// A second handle on a shared value, by `Arc::clone`: it points to the same
/// allocation, so it holds the value that `handle` holds.
#[verifier::external_body]
pub(crate) fn share<T>(handle: &Arc<T>) -> (r: Arc<T>)
    ensures
        r == *handle,
{
    handle.clone()
}

} // verus!
