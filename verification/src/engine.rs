//! The storage engine: answers reads authoritatively for one speculative
//! snapshot, and deterministically folds a batch of ordered writes into a
//! new committed-but-not-yet-durable state root, recording everything a
//! verifier needs into the witness.

use vstd::prelude::*;
use crate::{bytes_eq, clone_bytes};
use crate::types::{
    duplicate_opt_value, opt_value_model, writes_model, OrderedReadsAndWrites, Root, SnapshotId,
    StorageError, StorageKey, StorageValue,
};
use crate::witness::{Hint, HintData, Witness};
use crate::resolver::{layer_value, layer_writes_model, resolve, SnapshotManager};
use crate::lock::ReadOnlyLock;
use crate::db::{kv_writes_model, OwnedNodeBatch, StateDb};
use crate::tree::{
    apply_after_ok, apply_ok, batch_root_hash, batch_values, batch_version, hashes_are_wide,
    key_hash, key_hash_bytes, lookup_ok, plain_writes_model, proof_after, proof_model,
    proof_verifies, root_after, tree_root_at, tree_value_at, update_ok, update_verifies,
    writes_to_map, ProofHandle,
};

verus! {

/// The non-merkleized accessory side-store: data that must persist but need
/// not be cryptographically committed.  The last write for a key wins.
pub struct NativeDb {
    pub entries: Vec<(Vec<u8>, StorageValue)>,
}

impl NativeDb {
    pub open spec fn view(self) -> Seq<(Seq<u8>, Seq<u8>)> {
        layer_writes_model(self.entries@)
    }

    pub fn new() -> (r: Self)
        ensures
            r@ == Seq::<(Seq<u8>, Seq<u8>)>::empty(),
    {
        let r = NativeDb { entries: Vec::new() };
        proof {
            assert(r@ =~= Seq::<(Seq<u8>, Seq<u8>)>::empty());
        }
        r
    }

    /// Records an accessory value.
    pub fn set_value(&mut self, key: Vec<u8>, value: StorageValue)
        ensures
            final(self)@ == old(self)@.push((key@, value@)),
    {
        let ghost before = self@;
        self.entries.push((key, value));
        proof {
            assert(self@ =~= before.push((self.entries@.last().0@, self.entries@.last().1@)));
        }
    }

    /// The accessory value recorded for `key`, if any.
    pub fn get_value_option(&self, key: &StorageKey) -> (r: Option<StorageValue>)
        ensures
            match r {
                Some(v) => layer_value(self@, key@) == Some(v@),
                None => layer_value(self@, key@) is None,
            },
    {
        let mut i: usize = self.entries.len();
        proof {
            assert(self@.take(i as int) =~= self@);
        }
        while i > 0
            invariant
                i <= self.entries.len(),
                layer_value(self@, key@) == layer_value(self@.take(i as int), key@),
            decreases i,
        {
            i = i - 1;
            let ghost pre = self@.take(i as int + 1);
            proof {
                assert(pre.last() == (self.entries@[i as int].0@, self.entries@[i as int].1@));
                assert(pre.drop_last() =~= self@.take(i as int));
            }
            if bytes_eq(&self.entries[i].0, key.as_bytes()) {
                return Some(self.entries[i].1.duplicate());
            }
        }
        proof {
            assert(self@.take(0) =~= Seq::<(Seq<u8>, Seq<u8>)>::empty());
        }
        None
    }
}

/// A claimed key, its claimed optional value, and an inclusion or exclusion
/// proof against a declared root.
pub struct StorageProof {
    pub key: StorageKey,
    pub value: Option<StorageValue>,
    pub proof: ProofHandle,
}

/// Runtime configuration.  Construction of an engine from configuration is
/// a fork manager's responsibility, not this library's; the type is carried
/// for the signature of [`HierarchicalProverStorage::with_config`].
pub struct Config {}

/// The hashed form of an ordered write set: each key replaced by its tree
/// digest.
pub open spec fn hashed_of(w: Seq<(Seq<u8>, Option<Seq<u8>>)>) -> Seq<(Seq<u8>, Option<Seq<u8>>)> {
    w.map(|i: int, p: (Seq<u8>, Option<Seq<u8>>)| (key_hash_bytes(p.0), p.1))
}

/// A storage engine bound to one speculative snapshot: reads consult the
/// snapshot-layer ancestry first and durable storage second, and one state
/// update folds the batch's ordered writes into a new root.
pub struct HierarchicalProverStorage {
    pub id: SnapshotId,
    pub db: StateDb,
    pub native_db: NativeDb,
    pub parent: ReadOnlyLock<SnapshotManager>,
}

impl HierarchicalProverStorage {
    /// The durable store is consistent and every resolver state the parent
    /// lock can hold is well-formed.
    pub open spec fn wf(self) -> bool {
        &&& self.db.wf()
        &&& forall|m: SnapshotManager| #[trigger] (self.parent.inv())(m) ==> m.wf()
    }

    /// What a read of `key` returns when the parent lock holds `m`: the
    /// ancestry's speculative value if one exists, else the latest durable
    /// value.
    pub open spec fn get_model(self, m: SnapshotManager, key: Seq<u8>) -> Option<Seq<u8>> {
        match resolve(m.state.layers@, self.id.id as int, key) {
            Some(v) => Some(v),
            None => self.db.durable_get(key),
        }
    }

    /// The accessory-side equivalent of [`HierarchicalProverStorage::get_model`].
    pub open spec fn get_accessory_model(self, m: SnapshotManager, key: Seq<u8>) -> Option<
        Seq<u8>,
    > {
        match resolve(m.accessory.layers@, self.id.id as int, key) {
            Some(v) => Some(v),
            None => layer_value(self.native_db@, key),
        }
    }

    /// Binds an engine to a snapshot, a durable store, an accessory store
    /// and a read-only view of the shared snapshot layers.
    pub fn new_from_db(
        id: SnapshotId,
        state_db: StateDb,
        native_db: NativeDb,
        manager: ReadOnlyLock<SnapshotManager>,
    ) -> (r: Self)
        ensures
            r.id == id,
            r.db == state_db,
            r.native_db == native_db,
            r.parent == manager,
    {
        HierarchicalProverStorage { id, db: state_db, native_db, parent: manager }
    }

    /// Hands the durable and accessory stores back, once the per-batch
    /// engine is done, so an external snapshot manager can commit or
    /// discard the pending update.
    pub fn into_dbs(self) -> (r: (StateDb, NativeDb))
        ensures
            r.0 == self.db,
            r.1 == self.native_db,
    {
        (self.db, self.native_db)
    }

    /// Reads `key` for this snapshot: the ancestry answers first, durable
    /// storage second, and the resolved value — or its absence — is always
    /// appended to the witness.
    pub fn get(&self, key: &StorageKey, witness: &mut Witness) -> (r: Option<StorageValue>)
        requires
            self.wf(),
        ensures
            exists|m: SnapshotManager|
                #[trigger] (self.parent.inv())(m) && opt_value_model(r) == self.get_model(m, key@),
            final(witness).hints() == old(witness).hints().push(
                HintData::Value(opt_value_model(r)),
            ),
            final(witness).position() == old(witness).position(),
    {
        let handle = self.parent.read();
        let resolver = handle.borrow();
        let val = match resolver.fetch_value(self.id, key) {
            Some(v) => Some(v),
            None => self.db.get_value_option_by_key(key),
        };
        proof {
            assert((self.parent.inv())(handle.view()) && opt_value_model(val) == self.get_model(
                handle.view(),
                key@,
            ));
        }
        handle.release_read();
        witness.add_hint(Hint::Value(duplicate_opt_value(&val)));
        val
    }

    /// Reads `key` from the accessory side-store with the same two-tier
    /// resolution; accessory reads leave no witness trace.
    pub fn get_accessory(&self, key: &StorageKey) -> (r: Option<StorageValue>)
        requires
            self.wf(),
        ensures
            exists|m: SnapshotManager|
                #[trigger] (self.parent.inv())(m) && opt_value_model(r)
                    == self.get_accessory_model(m, key@),
    {
        let handle = self.parent.read();
        let resolver = handle.borrow();
        let val = match resolver.fetch_accessory_value(self.id, key) {
            Some(v) => Some(v),
            None => self.native_db.get_value_option(key),
        };
        proof {
            assert((self.parent.inv())(handle.view()) && opt_value_model(val)
                == self.get_accessory_model(handle.view(), key@));
        }
        handle.release_read();
        val
    }

    /// Deterministically folds the batch's ordered writes into a new root:
    /// records the previous root, the update proof and the new root into
    /// the witness, in that order, and hands the new tree nodes back as a
    /// pending update tagged with this snapshot and the version it extends.
    /// Requires an initialized store: genesis must exist, so a root is
    /// recorded at the latest durable version.
    pub fn compute_state_update(
        &self,
        state_accesses: OrderedReadsAndWrites,
        witness: &mut Witness,
    ) -> (r: Result<(Root, OwnedNodeBatch), StorageError>)
        requires
            self.wf(),
            self.db.next_version >= 1,
        ensures
            ({
                let hashed = hashed_of(state_accesses@);
                let nv = self.db.next_version as int;
                let prev = tree_root_at(self.db.tree, nv - 1)->0;
                &&& r.is_ok() == update_ok(self.db.tree, hashed, nv)
                &&& (r matches Ok(out) ==> {
                    &&& out.0@ == root_after(self.db.tree, hashed, nv)
                    &&& out.0.wf()
                    &&& final(witness).hints() == old(witness).hints() + seq![
                        HintData::Root(prev),
                        HintData::Proof(proof_after(self.db.tree, hashed, nv)),
                        HintData::Root(out.0@),
                    ]
                    &&& out.1.snapshot_id == self.id
                    &&& out.1.version == self.db.next_version
                    &&& out.1.writes_view() == state_accesses@
                    &&& batch_version(out.1.nodes) == nv
                    &&& batch_root_hash(out.1.nodes) == Some(out.0@)
                    &&& batch_values(out.1.nodes) == writes_to_map(hashed)
                    &&& apply_ok(self.db.tree, out.1.nodes) == apply_after_ok(self.db.tree,
                        hashed, nv)
                    &&& crate::proofshape::update_proof_admissible(proof_after(self.db.tree,
                        hashed, nv), crate::proofshape::keys_of(hashed))
                    &&& update_verifies(proof_after(self.db.tree, hashed, nv), prev, out.0@,
                        hashed)
                })
                &&& (r is Err ==> final(witness).hints() == old(witness).hints().push(
                    HintData::Root(prev),
                ))
                &&& final(witness).position() == old(witness).position()
            }),
    {
        let latest_version = self.db.get_next_version() - 1;
        let prev_root = match self.db.tree.root_at(latest_version) {
            Some(h) => h,
            None => {
                // Unreachable: the store is initialized, so a root is
                // recorded at the latest durable version.
                proof {
                    assert(tree_root_at(self.db.tree, latest_version as int) is Some);
                    assert(false);
                }
                return Err(StorageError::TreeUpdate);
            },
        };
        witness.add_hint(Hint::Root(clone_bytes(&prev_root)));

        let ghost in_model = state_accesses@;
        let writes = state_accesses.ordered_writes;
        let mut hashed: Vec<(Vec<u8>, Option<Vec<u8>>)> = Vec::new();
        let mut plain: Vec<(Vec<u8>, Option<StorageValue>)> = Vec::new();
        let mut i: usize = 0;
        while i < writes.len()
            invariant
                i <= writes@.len(),
                in_model == writes_model(writes@),
                plain_writes_model(hashed@) =~= hashed_of(in_model.take(i as int)),
                kv_writes_model(plain@) =~= in_model.take(i as int),
                hashes_are_wide(hashed@),
            decreases writes@.len() - i,
        {
            let kh = key_hash(&writes[i].0.key);
            let value_bytes = match &writes[i].1 {
                Some(v) => Some(clone_bytes(&v.value)),
                None => None,
            };
            hashed.push((kh, value_bytes));
            plain.push((clone_bytes(&writes[i].0.key), duplicate_opt_value(&writes[i].1)));
            proof {
                assert(plain_writes_model(hashed@) =~= plain_writes_model(
                    hashed@.drop_last(),
                ).push((hashed@.last().0@, crate::tree::opt_bytes_model(hashed@.last().1))));
                assert(kv_writes_model(plain@) =~= kv_writes_model(plain@.drop_last()).push(
                    (plain@.last().0@, opt_value_model(plain@.last().1)),
                ));
                assert(hashed_of(in_model.take(i as int + 1)) =~= hashed_of(
                    in_model.take(i as int),
                ).push((key_hash_bytes(in_model[i as int].0), in_model[i as int].1)));
                assert(in_model.take(i as int + 1) =~= in_model.take(i as int).push(
                    in_model[i as int],
                ));
            }
            i = i + 1;
        }
        proof {
            assert(in_model.take(in_model.len() as int) =~= in_model);
        }

        let next_version = self.db.get_next_version();
        match self.db.tree.put_value_set(&hashed, next_version) {
            Ok((new_root, proof_bytes, nodes)) => {
                witness.add_hint(Hint::Proof(proof_bytes));
                witness.add_hint(Hint::Root(clone_bytes(&new_root)));
                let batch = OwnedNodeBatch {
                    snapshot_id: self.id,
                    version: next_version,
                    writes: plain,
                    nodes,
                };
                Ok((Root::new(new_root), batch))
            },
            Err(e) => Err(e),
        }
    }

    /// Persisting a pending update is the external snapshot manager's duty;
    /// in this build the engine itself never commits.
    pub fn commit(
        &self,
        _node_batch: &OwnedNodeBatch,
        _accessory_update: &OrderedReadsAndWrites,
    ) -> (r: Result<(), StorageError>)
        ensures
            r matches Err(e) && e is UnsupportedOperation,
    {
        Err(StorageError::UnsupportedOperation)
    }

    /// Construction from configuration belongs to the external fork
    /// manager; the engine refuses it.
    pub fn with_config(_config: Config) -> (r: Result<Self, StorageError>)
        ensures
            r matches Err(e) && e is UnsupportedOperation,
    {
        Err(StorageError::UnsupportedOperation)
    }

    /// Produces a proof bundle for `key` against the root recorded at
    /// `version`: the value it carries is the one the store's version
    /// history records for the key there, and it verifies against that
    /// root.  Succeeds exactly when the tree's lookup does, which depends
    /// on the store's content, the key hash and the version alone.
    pub fn prove(&self, key: &StorageKey, version: u64) -> (r: Result<StorageProof, StorageError>)
        requires
            self.wf(),
            version < self.db.next_version,
        ensures
            r.is_ok() == lookup_ok(self.db.tree, key_hash_bytes(key@), version as int),
            r matches Ok(p) ==> {
                &&& p.key@ == key@
                &&& opt_value_model(p.value) == tree_value_at(self.db.tree, version as int,
                    key_hash_bytes(key@))
                &&& proof_verifies(proof_model(p.proof), tree_root_at(self.db.tree,
                    version as int)->0, key_hash_bytes(key@), opt_value_model(p.value))
            },
    {
        let kh = key_hash(key.as_bytes());
        match self.db.tree.get_with_proof(&kh, version) {
            Ok((v, ph)) => {
                let value = match v {
                    Some(b) => Some(StorageValue::new(b)),
                    None => None,
                };
                Ok(StorageProof { key: key.duplicate(), value, proof: ph })
            },
            Err(e) => Err(e),
        }
    }

    /// Checks a proof bundle against a claimed root: succeeds exactly when
    /// the proof verifies the bundle's value for the bundle's key under
    /// that root, and then returns that key and value.
    pub fn open_proof(state_root: Root, proof: StorageProof) -> (r: Result<
        (StorageKey, Option<StorageValue>),
        StorageError,
    >)
        requires
            state_root.wf(),
        ensures
            r.is_ok() == proof_verifies(proof_model(proof.proof), state_root@, key_hash_bytes(
                proof.key@), opt_value_model(proof.value)),
            r matches Ok(out) ==> out.0@ == proof.key@ && opt_value_model(out.1)
                == opt_value_model(proof.value),
            r matches Err(e) ==> e is ProofVerification,
    {
        let key_hash32 = key_hash(proof.key.as_bytes());
        if proof.proof.verify(state_root.as_bytes(), &key_hash32, &proof.value) {
            Ok((proof.key, proof.value))
        } else {
            Err(StorageError::ProofVerification)
        }
    }

    /// True exactly when no version beyond genesis has been committed.
    pub fn is_empty(&self) -> (r: bool)
        ensures
            r == (self.db.next_version <= 1),
    {
        self.db.get_next_version() <= 1
    }
}

} // verus!
