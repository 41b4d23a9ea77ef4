//! The shared-resource adaptor.
//!
//! A batch hands one logical resource — a client, a connection, a context —
//! to many concurrently spawned jobs. Such a resource is owned once and is
//! not duplicable by value, and a spawned job may outlive the stack frame
//! that spawned it, so jobs cannot simply borrow a local. The adaptor wraps
//! the resource in a reference count: every job holds its own
//! [`ResourceHandle`], all reading the same underlying value, which is
//! destroyed only after the last handle is dropped.
//!
//! The adaptor performs no I/O and never copies the resource. It provides
//! shared read access only; a resource that must be mutated from several jobs
//! has to synchronize internally — that is the resource's own responsibility,
//! documented here as a precondition, not something the orchestrator enforces.

use std::sync::Arc;
use vstd::prelude::*;

verus! {

/// A reference-counted, shared-read handle to the single resource all jobs
/// of a batch operate against.
///
/// The view of a handle is the resource value itself; sharing preserves it.
pub struct ResourceHandle<T> {
    inner: Arc<T>,
}

impl<T> View for ResourceHandle<T> {
    type V = T;

    closed spec fn view(&self) -> T {
        *self.inner
    }
}

impl<T> ResourceHandle<T> {
    /// Takes ownership of the resource and wraps it for sharing.
    pub fn new(resource: T) -> (h: ResourceHandle<T>)
        ensures
            h@ == resource,
    {
        ResourceHandle { inner: Arc::new(resource) }
    }

    /// Produces another handle to the very same resource — a share, not a
    /// copy. The resource lives until the last handle is dropped.
    ///
    /// Relies on `Arc::clone`, which returns a new pointer to the same
    /// allocation and never touches the pointed-to value.
    #[verifier::external_body]
    pub fn share(&self) -> (h: ResourceHandle<T>)
        ensures
            h@ == self@,
    {
        ResourceHandle { inner: Arc::clone(&self.inner) }
    }

    /// Borrows the shared resource for reading.
    ///
    /// Relies on `Arc`'s `Deref`, which borrows the pointed-to value.
    #[verifier::external_body]
    pub fn get(&self) -> (r: &T)
        ensures
            *r == self@,
    {
        &*self.inner
    }
}

} // verus!
