//! The trusted boundary to the external merkle-tree arithmetic.  The
//! library delegates key hashing, root derivation, update proofs and proof
//! checking to the `jmt` crate; every call crosses through one of the
//! wrappers here, whose contracts name what the call returns without
//! restating the tree arithmetic itself.
//!
//! The hasher type of `jmt` and its proof objects are generic over a hashing
//! trait and instantiated here with a fixed 256-bit digest; those type
//! parameters cannot be declared to the verifier, so each external object is
//! held in a private field of an opaque struct, and uninterpreted functions
//! name its contents.

use vstd::prelude::*;
use jmt::storage::TreeWriter;
use crate::types::{opt_value_model, StorageError, StorageValue};

verus! {

/// The durable node store: every tree node and value the committed versions
/// hold, keyed by version.  Holds a `jmt::mock::MockTreeStore`, an in-memory
/// store created with overwriting permitted, so appends never panic.
#[verifier::external_body]
pub struct TreeStore {
    store: jmt::mock::MockTreeStore,
}

/// The tree nodes one update produced, all keyed by the single version the
/// update was computed for.  Holds a `jmt::storage::NodeBatch` as
/// `jmt::JellyfishMerkleTree::put_value_set_with_proof` returned it.
#[verifier::external_body]
pub struct NodeBatchHolder {
    batch: jmt::storage::NodeBatch,
}

/// An inclusion or exclusion proof against one root.  Holds a
/// `jmt::proof::SparseMerkleProof` over the fixed hasher.
#[verifier::external_body]
pub struct ProofHandle {
    proof: jmt::proof::SparseMerkleProof<sha2::Sha256>,
}

/// The digest `jmt::KeyHash::with::<sha2::Sha256>` derives from a key's
/// bytes: a function of the key bytes alone.
pub uninterp spec fn key_hash_bytes(key: Seq<u8>) -> Seq<u8>;

/// What the store records at a version: the hash of the root node written
/// there, if one was.
pub uninterp spec fn tree_root_at(t: TreeStore, version: int) -> Option<Seq<u8>>;

/// Whether `put_value_set_with_proof` succeeds, and its proof serializes, on
/// this store, hashed write set and version: a function of those alone.
pub uninterp spec fn update_ok(
    t: TreeStore,
    writes: Seq<(Seq<u8>, Option<Seq<u8>>)>,
    version: int,
) -> bool;

/// The root `put_value_set_with_proof` returns for this store, hashed write
/// set and version.
pub uninterp spec fn root_after(
    t: TreeStore,
    writes: Seq<(Seq<u8>, Option<Seq<u8>>)>,
    version: int,
) -> Seq<u8>;

/// The serialized update proof `put_value_set_with_proof` returns for this
/// store, hashed write set and version.
pub uninterp spec fn proof_after(
    t: TreeStore,
    writes: Seq<(Seq<u8>, Option<Seq<u8>>)>,
    version: int,
) -> Seq<u8>;

/// Whether `get_with_proof` succeeds on this store, key hash and version:
/// a function of those alone.
pub uninterp spec fn lookup_ok(t: TreeStore, key_hash: Seq<u8>, version: int) -> bool;

/// The value the store's version history records for a key hash at or
/// before a version, as `get_with_proof` returns it.
pub uninterp spec fn tree_value_at(t: TreeStore, version: int, key_hash: Seq<u8>) -> Option<
    Seq<u8>,
>;

/// Whether writing a node batch back into the store succeeds: a function
/// of the store's content and the batch alone.
pub uninterp spec fn apply_ok(t: TreeStore, b: NodeBatchHolder) -> bool;

/// The greatest version any node or value entry of the store carries;
/// below zero when the store is empty.
pub uninterp spec fn tree_max_version(t: TreeStore) -> int;

/// Whether the batch `put_value_set_with_proof` returns for this store,
/// hashed write set and version writes back into the same, unchanged store
/// successfully: a function of those alone, connected to [`apply_ok`] by
/// the contract of [`TreeStore::put_value_set`].
pub uninterp spec fn apply_after_ok(
    t: TreeStore,
    writes: Seq<(Seq<u8>, Option<Seq<u8>>)>,
    version: int,
) -> bool;

/// The single version a node batch's nodes and values carry.
pub uninterp spec fn batch_version(b: NodeBatchHolder) -> int;

/// The value entries a node batch holds, keyed by key hash: for each
/// written key hash, the value — or deletion — the batch records.
pub uninterp spec fn batch_values(b: NodeBatchHolder) -> Map<Seq<u8>, Option<Seq<u8>>>;

/// The map a hashed write set settles to: the last write for a key hash
/// wins.
pub open spec fn writes_to_map(w: Seq<(Seq<u8>, Option<Seq<u8>>)>) -> Map<Seq<u8>, Option<Seq<u8>>>
    decreases w.len(),
{
    if w.len() == 0 {
        Map::empty()
    } else {
        writes_to_map(w.drop_last()).insert(w.last().0, w.last().1)
    }
}

/// The hash of the root node a batch holds, if one is in it.
pub uninterp spec fn batch_root_hash(b: NodeBatchHolder) -> Option<Seq<u8>>;

/// The serialized form of the proof a handle holds.
pub uninterp spec fn proof_model(p: ProofHandle) -> Seq<u8>;

/// Whether `jmt::proof::SparseMerkleProof::verify` accepts this proof for
/// this root, key hash and optional value: a function of those alone.
pub uninterp spec fn proof_verifies(
    proof: Seq<u8>,
    root: Seq<u8>,
    key_hash: Seq<u8>,
    value: Option<Seq<u8>>,
) -> bool;

/// Whether `jmt::proof::UpdateMerkleProof::verify_update`, after borsh
/// deserialization of the proof bytes, accepts this transition from
/// `old_root` to `new_root` under the hashed write set: a function of those
/// alone.
pub uninterp spec fn update_verifies(
    proof: Seq<u8>,
    old_root: Seq<u8>,
    new_root: Seq<u8>,
    writes: Seq<(Seq<u8>, Option<Seq<u8>>)>,
) -> bool;

/// The abstract content of an optional byte vector.
pub open spec fn opt_bytes_model(v: Option<Vec<u8>>) -> Option<Seq<u8>> {
    match v {
        Some(x) => Some(x@),
        None => None,
    }
}

/// The abstract content of a hashed write set.
pub open spec fn plain_writes_model(w: Seq<(Vec<u8>, Option<Vec<u8>>)>) -> Seq<
    (Seq<u8>, Option<Seq<u8>>),
> {
    w.map(|i: int, p: (Vec<u8>, Option<Vec<u8>>)| (p.0@, opt_bytes_model(p.1)))
}

/// Every key hash of a hashed write set has the tree's digest width.
pub open spec fn hashes_are_wide(w: Seq<(Vec<u8>, Option<Vec<u8>>)>) -> bool {
    forall|i: int| 0 <= i < w.len() ==> (#[trigger] w[i]).0@.len() == 32
}

/// Relies on `jmt::KeyHash::with::<sha2::Sha256>`: a 32-byte digest of the
/// key bytes alone.
#[verifier::external_body]
pub fn key_hash(key: &Vec<u8>) -> (r: Vec<u8>)
    ensures
        r@ == key_hash_bytes(key@),
        r@.len() == 32,
{
    jmt::KeyHash::with::<sha2::Sha256>(key.as_slice()).0.to_vec()
}

impl TreeStore {
    /// Relies on `jmt::mock::MockTreeStore::new`: an empty store, with no
    /// node recorded at any version.
    #[verifier::external_body]
    pub fn new() -> (t: TreeStore)
        ensures
            forall|v: int| tree_root_at(t, v) is None,
            tree_max_version(t) < 0,
    {
        TreeStore { store: jmt::mock::MockTreeStore::new(true) }
    }

    /// Relies on `jmt::JellyfishMerkleTree::get_root_hash_option`: the hash
    /// of the root node recorded at `version`, or absence.
    #[verifier::external_body]
    pub fn root_at(&self, version: u64) -> (r: Option<Vec<u8>>)
        ensures
            match r {
                Some(h) => tree_root_at(*self, version as int) == Some(h@) && h@.len() == 32,
                None => tree_root_at(*self, version as int) is None,
            },
    {
        let tree = jmt::JellyfishMerkleTree::<_, sha2::Sha256>::new(&self.store);
        match tree.get_root_hash_option(version) {
            Ok(opt) => opt.map(|h| h.0.to_vec()),
            Err(_) => None,
        }
    }

    /// Relies on `jmt::JellyfishMerkleTree::put_value_set_with_proof`: reads
    /// the tree rooted at `version - 1`, folds the hashed write set in, and
    /// returns the new root, an update proof of the transition from the
    /// previous root, and the batch of version-`version` nodes it built —
    /// all functions of the store's content and the arguments, named above;
    /// so too whether writing the returned batch back into the unchanged
    /// store succeeds.  The proof is carried as its borsh serialization,
    /// whose entries are one per write with at most 256 siblings each —
    /// one sibling per tree level — and whose recorded leaves lie on their
    /// write's own path, so it passes the admissibility screen of
    /// `crate::proofshape`.  The `requires` keeps the store positioned for
    /// `version`: with no root recorded at `version - 1`, a write set that
    /// creates no node would have the tree record its fallback root node
    /// at `version - 1`, not at `version`, and the batch clauses below
    /// would not hold.
    #[verifier::external_body]
    pub fn put_value_set(
        &self,
        writes: &Vec<(Vec<u8>, Option<Vec<u8>>)>,
        version: u64,
    ) -> (r: Result<(Vec<u8>, Vec<u8>, NodeBatchHolder), StorageError>)
        requires
            hashes_are_wide(writes@),
            version == 0 || tree_root_at(*self, version as int - 1) is Some,
        ensures
            r.is_ok() == update_ok(*self, plain_writes_model(writes@), version as int),
            r matches Ok(out) ==> {
                &&& out.0@ == root_after(*self, plain_writes_model(writes@), version as int)
                &&& out.0@.len() == 32
                &&& out.1@ == proof_after(*self, plain_writes_model(writes@), version as int)
                &&& batch_version(out.2) == version as int
                &&& batch_root_hash(out.2) == Some(out.0@)
                &&& batch_values(out.2) == writes_to_map(plain_writes_model(writes@))
                &&& apply_ok(*self, out.2) == apply_after_ok(*self, plain_writes_model(writes@),
                    version as int)
                &&& crate::proofshape::update_proof_admissible(out.1@,
                    crate::proofshape::keys_of(plain_writes_model(writes@)))
                &&& (tree_root_at(*self, version as int - 1) matches Some(prev)
                    ==> update_verifies(out.1@, prev, out.0@, plain_writes_model(writes@)))
            },
    {
        let tree = jmt::JellyfishMerkleTree::<_, sha2::Sha256>::new(&self.store);
        let mut set: Vec<(jmt::KeyHash, Option<Vec<u8>>)> = Vec::new();
        for (k, v) in writes.iter() {
            set.push((jmt::KeyHash(k.as_slice().try_into().unwrap()), v.clone()));
        }
        match tree.put_value_set_with_proof(set, version) {
            Ok((root, proof, update)) => match borsh::to_vec(&proof) {
                Ok(pb) => Ok((root.0.to_vec(), pb, NodeBatchHolder { batch: update.node_batch })),
                Err(_) => Err(StorageError::TreeUpdate),
            },
            Err(_) => Err(StorageError::TreeUpdate),
        }
    }

    /// Relies on `jmt::storage::TreeWriter::write_node_batch` for
    /// `MockTreeStore`: inserts every node the batch holds before touching
    /// values, so the batch's root node is recorded at the batch's version,
    /// and nodes keyed at other versions stay as they were.  Success — the
    /// value histories accept the batch's versions in order — depends on
    /// the store's content and the batch alone, named by [`apply_ok`].  On
    /// success each written key hash's history ends at the batch's version
    /// with the batch's entry, so a lookup there returns exactly it.  The
    /// `requires` keeps batches from landing below recorded history: a
    /// rejected value write would leave nodes already inserted, a store
    /// whose leaves and value histories disagree.
    #[verifier::external_body]
    pub fn apply_node_batch(&mut self, b: &NodeBatchHolder) -> (r: Result<(), StorageError>)
        requires
            tree_max_version(*old(self)) <= batch_version(*b),
        ensures
            tree_max_version(*final(self)) <= batch_version(*b),
            r.is_ok() == apply_ok(*old(self), *b),
            batch_root_hash(*b) matches Some(h) ==> tree_root_at(*final(self), batch_version(*b))
                == Some(h),
            r is Ok ==> forall|kh: Seq<u8>|
                batch_values(*b).dom().contains(kh) ==> tree_value_at(
                    *final(self),
                    batch_version(*b),
                    kh,
                ) == batch_values(*b)[kh],
            forall|v: int| v != batch_version(*b) ==> tree_root_at(*final(self), v) == tree_root_at(
                *old(self),
                v,
            ),
    {
        match self.store.write_node_batch(&b.batch) {
            Ok(()) => Ok(()),
            Err(_) => Err(StorageError::CommitFailed),
        }
    }

    /// Relies on `jmt::JellyfishMerkleTree::get_with_proof`: the value the
    /// store's version history records for the key hash at or before
    /// `version`, and a proof that verifies that value against the root
    /// recorded at `version`.  Success and the value returned are
    /// functions of the store's content and the arguments, named by
    /// [`lookup_ok`] and [`tree_value_at`].
    #[verifier::external_body]
    pub fn get_with_proof(
        &self,
        key_hash32: &Vec<u8>,
        version: u64,
    ) -> (r: Result<(Option<Vec<u8>>, ProofHandle), StorageError>)
        requires
            key_hash32@.len() == 32,
        ensures
            r.is_ok() == lookup_ok(*self, key_hash32@, version as int),
            r matches Ok(out) ==> {
                &&& opt_bytes_model(out.0) == tree_value_at(*self, version as int, key_hash32@)
                &&& (tree_root_at(*self, version as int) matches Some(root)
                    ==> proof_verifies(proof_model(out.1), root, key_hash32@, opt_bytes_model(
                        out.0,
                    )))
            },
    {
        let tree = jmt::JellyfishMerkleTree::<_, sha2::Sha256>::new(&self.store);
        match tree.get_with_proof(jmt::KeyHash(key_hash32.as_slice().try_into().unwrap()), version)
        {
            Ok((v, p)) => Ok((v, ProofHandle { proof: p })),
            Err(_) => Err(StorageError::TreeUpdate),
        }
    }
}

impl ProofHandle {
    /// Relies on `jmt::proof::SparseMerkleProof`'s hand-written `Clone`
    /// impl: a field-for-field copy.
    #[verifier::external_body]
    pub fn duplicate(&self) -> (r: Self)
        ensures
            proof_model(r) == proof_model(*self),
    {
        ProofHandle { proof: self.proof.clone() }
    }

    /// Relies on `jmt::proof::SparseMerkleProof::verify`: accepts or rejects
    /// this proof for the given root, key hash and optional value,
    /// deterministically in those alone.
    #[verifier::external_body]
    pub fn verify(
        &self,
        root: &Vec<u8>,
        key_hash32: &Vec<u8>,
        value: &Option<StorageValue>,
    ) -> (r: bool)
        requires
            root@.len() == 32,
            key_hash32@.len() == 32,
        ensures
            r == proof_verifies(proof_model(*self), root@, key_hash32@, opt_value_model(*value)),
    {
        let rh = jmt::RootHash(root.as_slice().try_into().unwrap());
        let kh = jmt::KeyHash(key_hash32.as_slice().try_into().unwrap());
        self.proof.verify(rh, kh, value.as_ref().map(|v| v.value.as_slice())).is_ok()
    }
}

/// Relies on `jmt::proof::UpdateMerkleProof::verify_update`, after borsh
/// deserialization of the proof bytes: accepts or rejects the transition
/// from `old_root` to `new_root` under the hashed write set,
/// deterministically in those alone.  Undecodable proof bytes are rejected.
/// The `requires` keeps out the proof bytes on which `verify_update` does
/// not return: entries with more than 256 siblings reach `root_hash`'s
/// unguarded `256 - siblings.len()`, and a recorded leaf off its write
/// key's path — sharing fewer prefix bits than it has siblings — drives
/// the subtractions of `compute_new_merkle_path_on_split` below zero,
/// since the rebuild there assumes the non-inclusion invariant that
/// `SparseMerkleProof::verify` checks and this path does not.  On-path
/// leaves keep every sibling list the rebuild forms within one bit per
/// level, so at most 256 long.  Callers screen untrusted bytes with
/// `crate::proofshape::check_update_proof_admissible` first; every proof
/// `put_value_set` produces passes the screen.
#[verifier::external_body]
pub fn verify_update_bytes(
    proof: &Vec<u8>,
    old_root: &Vec<u8>,
    new_root: &Vec<u8>,
    writes: &Vec<(Vec<u8>, Option<Vec<u8>>)>,
) -> (r: bool)
    requires
        crate::proofshape::update_proof_admissible(proof@,
            crate::proofshape::keys_of(plain_writes_model(writes@))),
        old_root@.len() == 32,
        new_root@.len() == 32,
        hashes_are_wide(writes@),
    ensures
        r == update_verifies(proof@, old_root@, new_root@, plain_writes_model(writes@)),
{
    let p: jmt::proof::UpdateMerkleProof<sha2::Sha256> = match borsh::from_slice(proof.as_slice())
    {
        Ok(p) => p,
        Err(_) => return false,
    };
    let mut set: Vec<(jmt::KeyHash, Option<Vec<u8>>)> = Vec::new();
    for (k, v) in writes.iter() {
        set.push((jmt::KeyHash(k.as_slice().try_into().unwrap()), v.clone()));
    }
    let old_rh = jmt::RootHash(old_root.as_slice().try_into().unwrap());
    let new_rh = jmt::RootHash(new_root.as_slice().try_into().unwrap());
    p.verify_update(old_rh, new_rh, &set).is_ok()
}

} // verus!
