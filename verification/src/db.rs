//! The durable, versioned store: a verified versioned key/value log for
//! reads, the opaque tree-node store for roots and proofs, and the pending
//! update batch that carries one computed state transition from "compute"
//! to "commit".

use vstd::prelude::*;
use crate::{bytes_eq, clone_bytes};
use crate::types::{
    duplicate_opt_value, opt_value_model, SnapshotId, StorageError, StorageKey, StorageValue,
};
use crate::tree::{
    apply_after_ok, apply_ok, batch_root_hash, batch_version, root_after, tree_max_version,
    tree_root_at, update_ok, NodeBatchHolder, TreeStore,
};

verus! {

/// The abstract content of a write list whose values may be tombstones.
pub open spec fn kv_writes_model(w: Seq<(Vec<u8>, Option<StorageValue>)>) -> Seq<
    (Seq<u8>, Option<Seq<u8>>),
> {
    w.map(|i: int, p: (Vec<u8>, Option<StorageValue>)| (p.0@, opt_value_model(p.1)))
}

/// The last binding a write list holds for a key, if any: `Some(None)`
/// records a deletion.
pub open spec fn last_binding(w: Seq<(Seq<u8>, Option<Seq<u8>>)>, key: Seq<u8>) -> Option<
    Option<Seq<u8>>,
>
    decreases w.len(),
{
    if w.len() == 0 {
        None
    } else if w.last().0 == key {
        Some(w.last().1)
    } else {
        last_binding(w.drop_last(), key)
    }
}

/// The abstract content of the versioned log: (version, key, value) with a
/// `None` value recording a deletion.
pub open spec fn kv_model(e: Seq<(u64, Vec<u8>, Option<StorageValue>)>) -> Seq<
    (int, Seq<u8>, Option<Seq<u8>>),
> {
    e.map(|i: int, p: (u64, Vec<u8>, Option<StorageValue>)| (
        p.0 as int,
        p.1@,
        opt_value_model(p.2),
    ))
}

/// The latest value the log binds `key` to at or before `version`: the last
/// qualifying entry answers; a deletion, like no entry at all, reads as
/// absence.
pub open spec fn kv_lookup(
    m: Seq<(int, Seq<u8>, Option<Seq<u8>>)>,
    version: int,
    key: Seq<u8>,
) -> Option<Seq<u8>>
    decreases m.len(),
{
    if m.len() == 0 {
        None
    } else if m.last().1 == key && m.last().0 <= version {
        m.last().2
    } else {
        kv_lookup(m.drop_last(), version, key)
    }
}

/// An owned, not-yet-persisted batch of tree nodes generated by one state
/// update, tagged with the snapshot it was computed for and the version it
/// applies to.  Immutable once produced; it is later committed to durable
/// storage or dropped to abandon the fork.
pub struct OwnedNodeBatch {
    pub snapshot_id: SnapshotId,
    pub version: u64,
    pub writes: Vec<(Vec<u8>, Option<StorageValue>)>,
    pub nodes: NodeBatchHolder,
}

impl OwnedNodeBatch {
    pub open spec fn writes_view(self) -> Seq<(Seq<u8>, Option<Seq<u8>>)> {
        kv_writes_model(self.writes@)
    }

    /// The snapshot this batch was computed for.
    pub fn get_snapshot_id(&self) -> (r: SnapshotId)
        ensures
            r == self.snapshot_id,
    {
        self.snapshot_id
    }

    /// The value this batch writes for `key`, if the batch writes one: the
    /// last write wins, and a recorded deletion reads as absence.
    pub fn get_value(&self, key: &StorageKey) -> (r: Option<StorageValue>)
        ensures
            opt_value_model(r) == match last_binding(self.writes_view(), key@) {
                Some(b) => b,
                None => None,
            },
    {
        let mut i: usize = self.writes.len();
        proof {
            assert(self.writes_view().take(i as int) =~= self.writes_view());
        }
        while i > 0
            invariant
                i <= self.writes.len(),
                last_binding(self.writes_view(), key@) == last_binding(
                    self.writes_view().take(i as int),
                    key@,
                ),
            decreases i,
        {
            i = i - 1;
            let ghost pre = self.writes_view().take(i as int + 1);
            proof {
                assert(pre.last() == (self.writes@[i as int].0@, opt_value_model(
                    self.writes@[i as int].1,
                )));
                assert(pre.drop_last() =~= self.writes_view().take(i as int));
            }
            if bytes_eq(&self.writes[i].0, key.as_bytes()) {
                return duplicate_opt_value(&self.writes[i].1);
            }
        }
        proof {
            assert(self.writes_view().take(0) =~= Seq::<(Seq<u8>, Option<Seq<u8>>)>::empty());
        }
        None
    }
}

/// The durable store: a monotonically versioned key/value log beside the
/// tree-node store.  `next_version` is the version the next committed batch
/// will occupy; committed versions are exactly those below it.
pub struct StateDb {
    pub tree: TreeStore,
    pub kv: Vec<(u64, Vec<u8>, Option<StorageValue>)>,
    pub next_version: u64,
}

impl StateDb {
    /// Every committed version has a root recorded in the tree store,
    /// every log entry sits at a committed version, and the tree store
    /// holds nothing beyond the version handed out next — so the next
    /// batch never lands below recorded history.
    pub open spec fn wf(self) -> bool {
        &&& forall|v: int|
            0 <= v < self.next_version ==> (#[trigger] tree_root_at(self.tree, v)) is Some
        &&& forall|i: int|
            0 <= i < self.kv@.len() ==> (#[trigger] self.kv@[i]).0 < self.next_version
        &&& tree_max_version(self.tree) <= self.next_version as int
    }

    /// What a durable read of `key` sees: the latest committed value.
    pub open spec fn durable_get(self, key: Seq<u8>) -> Option<Seq<u8>> {
        kv_lookup(kv_model(self.kv@), self.next_version as int, key)
    }

    /// A fresh store with no committed version.
    pub fn new() -> (r: StateDb)
        ensures
            r.wf(),
            r.next_version == 0,
            r.kv@.len() == 0,
    {
        StateDb { tree: TreeStore::new(), kv: Vec::new(), next_version: 0 }
    }

    /// The version the next committed batch will occupy.
    pub fn get_next_version(&self) -> (r: u64)
        ensures
            r == self.next_version,
    {
        self.next_version
    }

    /// The latest committed value for `key`, or absence.
    pub fn get_value_option_by_key(&self, key: &StorageKey) -> (r: Option<StorageValue>)
        ensures
            opt_value_model(r) == self.durable_get(key@),
    {
        let mut i: usize = self.kv.len();
        proof {
            assert(kv_model(self.kv@).take(i as int) =~= kv_model(self.kv@));
        }
        while i > 0
            invariant
                i <= self.kv@.len(),
                kv_lookup(kv_model(self.kv@), self.next_version as int, key@) == kv_lookup(
                    kv_model(self.kv@).take(i as int),
                    self.next_version as int,
                    key@,
                ),
            decreases i,
        {
            i = i - 1;
            let ghost pre = kv_model(self.kv@).take(i as int + 1);
            proof {
                assert(pre.last() == (self.kv@[i as int].0 as int, self.kv@[i as int].1@,
                    opt_value_model(self.kv@[i as int].2)));
                assert(pre.drop_last() =~= kv_model(self.kv@).take(i as int));
            }
            if self.kv[i].0 <= self.next_version && bytes_eq(&self.kv[i].1, key.as_bytes()) {
                return duplicate_opt_value(&self.kv[i].2);
            }
        }
        proof {
            assert(kv_model(self.kv@).take(0) =~= Seq::<(int, Seq<u8>, Option<Seq<u8>>)>::empty());
        }
        None
    }

    /// Establishes the genesis root at version 0 with no keys.  Must run
    /// once, before any state update is computed.  Succeeds exactly when
    /// the tree accepts the empty update at version 0 and writing the
    /// produced batch back succeeds, both decided by the store's content
    /// alone.
    pub fn init_genesis(&mut self) -> (r: Result<(), StorageError>)
        requires
            old(self).wf(),
            old(self).next_version == 0,
        ensures
            final(self).kv@ == old(self).kv@,
            r.is_ok() == (update_ok(old(self).tree, Seq::<(Seq<u8>, Option<Seq<u8>>)>::empty(), 0)
                && apply_after_ok(old(self).tree, Seq::<(Seq<u8>, Option<Seq<u8>>)>::empty(), 0)),
            r is Ok ==> {
                &&& final(self).wf()
                &&& final(self).next_version == 1
                &&& tree_root_at(final(self).tree, 0) == Some(
                    root_after(old(self).tree, Seq::<(Seq<u8>, Option<Seq<u8>>)>::empty(), 0),
                )
            },
            r is Err ==> final(self).next_version == 0 && final(self).wf(),
    {
        let empty: Vec<(Vec<u8>, Option<Vec<u8>>)> = Vec::new();
        proof {
            assert(crate::tree::plain_writes_model(empty@) =~= Seq::<
                (Seq<u8>, Option<Seq<u8>>),
            >::empty());
        }
        let (_root, _proof, batch) = match self.tree.put_value_set(&empty, 0) {
            Ok(out) => out,
            Err(e) => {
                return Err(e);
            },
        };
        match self.tree.apply_node_batch(&batch) {
            Ok(()) => {},
            Err(e) => {
                return Err(e);
            },
        }
        self.next_version = 1;
        Ok(())
    }

    /// Persists a pending update, advancing the durable version by one.
    /// The batch must extend the durable state: it was computed for the
    /// version the store hands out next.  Succeeds exactly when the tree
    /// store accepts the batch's nodes and values.
    pub fn commit_update(&mut self, batch: OwnedNodeBatch) -> (r: Result<(), StorageError>)
        requires
            old(self).wf(),
            batch.version == old(self).next_version,
            batch_version(batch.nodes) == old(self).next_version as int,
            batch_root_hash(batch.nodes) is Some,
            old(self).next_version < u64::MAX,
        ensures
            r.is_ok() == apply_ok(old(self).tree, batch.nodes),
            r is Ok ==> {
                &&& final(self).wf()
                &&& final(self).next_version == old(self).next_version + 1
                &&& kv_model(final(self).kv@) == kv_model(old(self).kv@) + batch.writes_view().map(
                    |i: int, p: (Seq<u8>, Option<Seq<u8>>)|
                        (old(self).next_version as int, p.0, p.1),
                )
                &&& tree_root_at(final(self).tree, old(self).next_version as int)
                    == batch_root_hash(batch.nodes)
            },
            r is Err ==> {
                &&& final(self).wf()
                &&& final(self).next_version == old(self).next_version
                &&& final(self).kv@ == old(self).kv@
            },
    {
        match self.tree.apply_node_batch(&batch.nodes) {
            Ok(()) => {},
            Err(e) => {
                return Err(e);
            },
        }
        let ghost tree_after = self.tree;
        let ghost appended = batch.writes_view().map(
            |i: int, p: (Seq<u8>, Option<Seq<u8>>)| (self.next_version as int, p.0, p.1),
        );
        let ghost base = kv_model(self.kv@);
        let mut i: usize = 0;
        while i < batch.writes.len()
            invariant
                i <= batch.writes@.len(),
                kv_model(self.kv@) =~= base + appended.take(i as int),
                forall|j: int|
                    0 <= j < self.kv@.len() ==> (#[trigger] self.kv@[j]).0 <= self.next_version,
                self.next_version == old(self).next_version,
                self.tree == tree_after,
                appended == batch.writes_view().map(
                    |k: int, p: (Seq<u8>, Option<Seq<u8>>)| (self.next_version as int, p.0, p.1),
                ),
            decreases batch.writes@.len() - i,
        {
            let key = clone_bytes(&batch.writes[i].0);
            let value = duplicate_opt_value(&batch.writes[i].1);
            let ghost prev = self.kv@;
            self.kv.push((self.next_version, key, value));
            proof {
                assert(kv_model(self.kv@) =~= kv_model(prev).push((self.next_version as int,
                    self.kv@.last().1@, opt_value_model(self.kv@.last().2))));
                assert(appended[i as int] == (self.next_version as int,
                    batch.writes@[i as int].0@, opt_value_model(batch.writes@[i as int].1)));
                assert(appended.take(i as int + 1) =~= appended.take(i as int).push(
                    appended[i as int],
                ));
                assert(base + appended.take(i as int + 1) =~= (base + appended.take(
                    i as int,
                )).push(appended[i as int]));
            }
            i = i + 1;
        }
        proof {
            assert(appended.take(batch.writes@.len() as int) =~= appended);
        }
        self.next_version = self.next_version + 1;
        Ok(())
    }
}

} // verus!
