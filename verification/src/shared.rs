//! Sharing of scene data between the objects that use it.

use vstd::prelude::*;
use std::sync::Arc;

verus! {

/// Another handle to the value that `a` points to.
///
/// Calls `Arc::clone`, which copies the pointer and leaves the value alone: the
/// new handle points to the same value.
#[verifier::external_body]
pub(crate) fn share<T>(a: &Arc<T>) -> (b: Arc<T>)
    ensures
        b == *a,
{
    Arc::clone(a)
}

} // verus!
