//! Core value types of the storage engine: keys, values, roots, snapshot
//! identifiers, ordered write batches, and the engine's error type.

use vstd::prelude::*;
use crate::clone_bytes;

verus! {

/// An opaque byte sequence identifying a logical state slot.
pub struct StorageKey {
    pub key: Vec<u8>,
}

impl StorageKey {
    pub open spec fn view(self) -> Seq<u8> {
        self.key@
    }

    pub fn new(key: Vec<u8>) -> (r: Self)
        ensures
            r@ == key@,
    {
        StorageKey { key }
    }

    /// The raw key bytes.
    pub fn as_bytes(&self) -> (r: &Vec<u8>)
        ensures
            r@ == self@,
    {
        &self.key
    }

    pub fn duplicate(&self) -> (r: Self)
        ensures
            r@ == self@,
    {
        StorageKey { key: clone_bytes(&self.key) }
    }
}

/// An opaque byte sequence associated with a key at a version.
pub struct StorageValue {
    pub value: Vec<u8>,
}

impl StorageValue {
    pub open spec fn view(self) -> Seq<u8> {
        self.value@
    }

    pub fn new(value: Vec<u8>) -> (r: Self)
        ensures
            r@ == value@,
    {
        StorageValue { value }
    }

    /// The raw value bytes.
    pub fn as_bytes(&self) -> (r: &Vec<u8>)
        ensures
            r@ == self@,
    {
        &self.value
    }

    pub fn duplicate(&self) -> (r: Self)
        ensures
            r@ == self@,
    {
        StorageValue { value: clone_bytes(&self.value) }
    }
}

/// The abstract content of an optional value: `None` records absence.
pub open spec fn opt_value_model(v: Option<StorageValue>) -> Option<Seq<u8>> {
    match v {
        Some(x) => Some(x@),
        None => None,
    }
}

/// Copies an optional value.
pub fn duplicate_opt_value(v: &Option<StorageValue>) -> (r: Option<StorageValue>)
    ensures
        opt_value_model(r) == opt_value_model(*v),
{
    match v {
        Some(x) => Some(x.duplicate()),
        None => None,
    }
}

/// A fixed-width hash identifying the whole-state commitment at a version.
pub struct Root {
    pub hash: Vec<u8>,
}

impl Root {
    pub open spec fn view(self) -> Seq<u8> {
        self.hash@
    }

    /// A root is a digest of the tree's fixed output width.
    pub open spec fn wf(self) -> bool {
        self.hash@.len() == 32
    }

    pub fn new(hash: Vec<u8>) -> (r: Self)
        ensures
            r@ == hash@,
    {
        Root { hash }
    }

    pub fn as_bytes(&self) -> (r: &Vec<u8>)
        ensures
            r@ == self@,
    {
        &self.hash
    }

    pub fn duplicate(&self) -> (r: Self)
        ensures
            r@ == self@,
    {
        Root { hash: clone_bytes(&self.hash) }
    }
}

/// Identifier of an in-flight, uncommitted state fork.
#[derive(Clone, Copy, Debug, PartialEq, Eq, Structural)]
pub struct SnapshotId {
    pub id: u64,
}

/// The record of one batch: an ordered sequence of writes, each an optional
/// value (a `None` write is a deletion).
pub struct OrderedReadsAndWrites {
    pub ordered_writes: Vec<(StorageKey, Option<StorageValue>)>,
}

/// The abstract content of an ordered write set.
pub open spec fn writes_model(w: Seq<(StorageKey, Option<StorageValue>)>) -> Seq<
    (Seq<u8>, Option<Seq<u8>>),
> {
    w.map(|i: int, p: (StorageKey, Option<StorageValue>)| (p.0@, opt_value_model(p.1)))
}

impl OrderedReadsAndWrites {
    pub open spec fn view(self) -> Seq<(Seq<u8>, Option<Seq<u8>>)> {
        writes_model(self.ordered_writes@)
    }

    pub fn new() -> (r: Self)
        ensures
            r@ == Seq::<(Seq<u8>, Option<Seq<u8>>)>::empty(),
    {
        let r = OrderedReadsAndWrites { ordered_writes: Vec::new() };
        proof {
            assert(r@ =~= Seq::<(Seq<u8>, Option<Seq<u8>>)>::empty());
        }
        r
    }

    pub fn add_write(&mut self, key: StorageKey, value: Option<StorageValue>)
        ensures
            final(self)@ == old(self)@.push((key@, opt_value_model(value))),
    {
        let ghost before = self@;
        self.ordered_writes.push((key, value));
        proof {
            assert(self@ =~= before.push((self.ordered_writes@.last().0@,
                opt_value_model(self.ordered_writes@.last().1))));
        }
    }
}

/// An attestation that a particular data-availability block transitioned
/// the rollup state from one root to another, carrying a storage proof
/// that the attester was bonded as of the initial root.
pub struct Attestation<StateProof> {
    /// The alleged state root before applying the block's contents.
    pub initial_state_root: [u8; 32],
    /// The hash of the block in which the transition occurred.
    pub da_block_hash: [u8; 32],
    /// The alleged post-state root.
    pub post_state_root: [u8; 32],
    /// A proof that the attester was bonded as of `initial_state_root`.
    pub proof_of_bond: StateProof,
}

/// The contents of a challenge to an attestation, carried as a public
/// output of a proof.  Generic over an address type and over the proven
/// state transition, which the zero-knowledge interface defines and this
/// library carries opaquely.
pub struct ChallengeContents<Address, StateTransition> {
    /// The rollup address of the originator of this challenge.
    pub challenger_address: Address,
    /// The state transition that was proven.
    pub state_transition: StateTransition,
}

/// A raw challenge blob, borrowed from the proof output that carries it.
pub struct Challenge<'a>(pub &'a [u8]);

/// The reported failures of the engine.
#[derive(Debug)]
pub enum StorageError {
    /// The claimed proof did not verify against the claimed root.
    ProofVerification,
    /// The tree rejected the update batch.
    TreeUpdate,
    /// The durable store rejected an append.
    CommitFailed,
    /// The witness ended, or held a hint of the wrong shape.
    WitnessExhausted,
    /// The witness's recorded starting root disagrees with the claimed one.
    RootMismatch,
    /// The operation is deliberately absent in this build.
    UnsupportedOperation,
}

impl StorageError {
    /// A short description of the failure.
    pub fn message(&self) -> (r: &'static str) {
        match self {
            StorageError::ProofVerification => "proof does not verify against the claimed root",
            StorageError::TreeUpdate => "tree update failed",
            StorageError::CommitFailed => "durable store rejected the append",
            StorageError::WitnessExhausted => "witness held no hint of the expected shape",
            StorageError::RootMismatch => "witness starting root disagrees with the claimed root",
            StorageError::UnsupportedOperation => "operation unsupported in this build",
        }
    }
}

} // verus!
