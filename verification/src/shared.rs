//! Shared, read-only handles.
//!
//! A schema and an operation list are built once and then shared by every
//! agent of a model through an `Arc`.

use std::sync::Arc;
use vstd::prelude::*;

verus! {

/// `Arc::clone`: a second handle to the same allocation, so the value behind
/// the new handle is the value behind the old one.
#[verifier::external_body]
pub(crate) fn share<T>(handle: &Arc<T>) -> (r: Arc<T>)
    ensures
        r == *handle,
{
    Arc::clone(handle)
}

} // verus!
