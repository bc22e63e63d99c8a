//! Shared handles to values held in several places at once.
use vstd::prelude::*;
use std::sync::Arc;

verus! {

/// Calls `Arc::clone`. Claims the new handle points to the same value.
#[verifier::external_body]
pub(crate) fn arc_share<T>(a: &Arc<T>) -> (r: Arc<T>)
    ensures
        r == *a,
{
    Arc::clone(a)
}

} // verus!
