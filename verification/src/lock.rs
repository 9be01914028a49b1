//! A read-only capability over a shared, lock-protected resource.  The
//! storage engine holds one of these for the snapshot-layer resolver it
//! does not own: the type exposes acquiring a read handle and nothing that
//! could mutate the protected value.

use vstd::prelude::*;
use std::sync::Arc;
use vstd::rwlock::{RwLock, ReadHandle};

verus! {

/// Wrapper around a reference-counted reader/writer lock that only allows
/// read access.  The invariant chosen at lock creation is all that a reader
/// learns about the protected value; a creator who pins the value with an
/// exact invariant gives its readers full knowledge of it.
#[verifier::reject_recursive_types(T)]
pub struct ReadOnlyLock<T> {
    lock: Arc<RwLock<T, spec_fn(T) -> bool>>,
}

impl<T> ReadOnlyLock<T> {
    /// The invariant every value stored in the lock satisfies.
    pub closed spec fn inv(self) -> spec_fn(T) -> bool {
        self.lock.pred()
    }

    /// Create a new read-only view from a shared reader/writer lock.
    pub fn new(lock: Arc<RwLock<T, spec_fn(T) -> bool>>) -> (s: Self)
        ensures
            s.inv() == lock.pred(),
    {
        ReadOnlyLock { lock }
    }

    /// Wraps a value in a fresh lock whose invariant pins it exactly: every
    /// reader then knows the protected value is `value`.
    pub fn pinned(value: T) -> (s: Self)
        ensures
            forall|x: T| #[trigger] (s.inv())(x) <==> x == value,
    {
        let ghost pred = |x: T| x == value;
        let lock = RwLock::<T, spec_fn(T) -> bool>::new(value, Ghost(pred));
        ReadOnlyLock { lock: Arc::new(lock) }
    }

    /// Acquires a read handle on the underlying lock.  The handle's value
    /// satisfies the lock's invariant; release it with `release_read`.
    pub fn read(&self) -> (handle: ReadHandle<'_, T, spec_fn(T) -> bool>)
        ensures
            (self.inv())(handle.view()),
    {
        (*self.lock).acquire_read()
    }

    /// Another read-only view of the same protected resource.
    pub fn duplicate(&self) -> (s: Self)
        ensures
            s.inv() == self.inv(),
    {
        ReadOnlyLock { lock: Arc::clone(&self.lock) }
    }
}

} // verus!
