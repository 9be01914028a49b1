//! A merkleized, snapshot-layered storage engine.
//!
//! The library turns a batch of key reads and ordered writes into a new
//! state root, a replayable witness, and a pending update that a caller can
//! later persist or discard.  Reads resolve through a chain of in-flight
//! snapshot layers before falling back to durable storage, so many
//! speculative forks can be queried at once without touching committed
//! state.  Tree arithmetic and hashing are delegated to the `jmt` crate
//! behind a small trusted boundary; everything above that boundary is
//! verified.

use vstd::prelude::*;

pub mod types;
pub mod witness;
pub mod resolver;
pub mod lock;
pub mod proofshape;
pub mod tree;
pub mod db;
pub mod engine;
pub mod replay;
pub mod laws;

verus! {

/// Compares two byte vectors for equality of their contents.
pub fn bytes_eq(a: &Vec<u8>, b: &Vec<u8>) -> (r: bool)
    ensures
        r == (a@ == b@),
{
    if a.len() != b.len() {
        assert(a@.len() != b@.len());
        return false;
    }
    let mut i: usize = 0;
    while i < a.len()
        invariant
            i <= a.len(),
            a.len() == b.len(),
            forall|j: int| 0 <= j < i ==> a@[j] == b@[j],
        decreases a.len() - i,
    {
        if a[i] != b[i] {
            return false;
        }
        i = i + 1;
    }
    proof {
        assert(a@ =~= b@);
    }
    true
}

/// Copies a byte vector.
pub fn clone_bytes(v: &Vec<u8>) -> (r: Vec<u8>)
    ensures
        r@ == v@,
{
    let r = v.clone();
    proof {
        assert(r@ =~= v@);
    }
    r
}

} // verus!
