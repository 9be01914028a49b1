//! The general laws of the engine, each stated over the spec functions its
//! operations' contracts use, and proved from them.

use vstd::prelude::*;
use crate::witness::HintData;
use crate::resolver::{resolve, SnapshotManager};
use crate::engine::{hashed_of, HierarchicalProverStorage};
use crate::replay::replay_model;
use crate::db::{kv_lookup, kv_model, last_binding};
use crate::tree::{
    batch_values, batch_version, key_hash_bytes, proof_after, root_after, tree_value_at,
    update_verifies, writes_to_map, NodeBatchHolder, TreeStore,
};

verus! {

/// Determinism: the new root and the recorded update proof are functions of
/// the durable tree, the hashed ordered write set and the version alone, so
/// computing the same update twice from the same state yields an identical
/// root and an identical witness-hint sequence.
pub proof fn lemma_state_update_deterministic(
    t: TreeStore,
    writes: Seq<(Seq<u8>, Option<Seq<u8>>)>,
    version: int,
    prev: Seq<u8>,
    root_one: Seq<u8>,
    proof_one: Seq<u8>,
    root_two: Seq<u8>,
    proof_two: Seq<u8>,
)
    requires
        root_one == root_after(t, writes, version),
        proof_one == proof_after(t, writes, version),
        root_two == root_after(t, writes, version),
        proof_two == proof_after(t, writes, version),
    ensures
        root_one == root_two,
        proof_one == proof_two,
        seq![HintData::Root(prev), HintData::Proof(proof_one), HintData::Root(root_one)]
            == seq![HintData::Root(prev), HintData::Proof(proof_two), HintData::Root(root_two)],
{
}

/// Round trip to the committed value: once a pending update is persisted,
/// the value the tree records at the committed version for a key the
/// batch wrote — the value a bundle `prove` produces there carries, and
/// `open_proof` then returns — is exactly the batch's last write for that
/// key.  The hypotheses are what `compute_state_update` ensures of the
/// batch and what `apply_node_batch` ensures of the store after a
/// successful commit.  Left out is one family of inputs: two distinct
/// keys of one batch whose digests collide, which no contract of a hash
/// can exclude.
pub proof fn lemma_committed_value_round_trip(
    t: TreeStore,
    b: NodeBatchHolder,
    w: Seq<(Seq<u8>, Option<Seq<u8>>)>,
    key: Seq<u8>,
)
    requires
        batch_values(b) == writes_to_map(hashed_of(w)),
        forall|kh: Seq<u8>|
            batch_values(b).dom().contains(kh) ==> #[trigger] tree_value_at(
                t,
                batch_version(b),
                kh,
            ) == batch_values(b)[kh],
        last_binding(w, key) is Some,
        forall|i: int|
            0 <= i < w.len() && key_hash_bytes((#[trigger] w[i]).0) == key_hash_bytes(key)
                ==> w[i].0 == key,
    ensures
        tree_value_at(t, batch_version(b), key_hash_bytes(key)) == last_binding(w, key)->0,
{
    lemma_writes_map_last_binding(w, key);
    assert(batch_values(b).dom().contains(key_hash_bytes(key)));
}

/// The settled map of a hashed write set holds, at a key's digest, the
/// key's last binding — when no other key of the set shares the digest.
proof fn lemma_writes_map_last_binding(w: Seq<(Seq<u8>, Option<Seq<u8>>)>, key: Seq<u8>)
    requires
        last_binding(w, key) is Some,
        forall|i: int|
            0 <= i < w.len() && key_hash_bytes((#[trigger] w[i]).0) == key_hash_bytes(key)
                ==> w[i].0 == key,
    ensures
        writes_to_map(hashed_of(w)).dom().contains(key_hash_bytes(key)),
        writes_to_map(hashed_of(w))[key_hash_bytes(key)] == last_binding(w, key)->0,
    decreases w.len(),
{
    assert(w.len() > 0);
    let h = hashed_of(w);
    assert(h.last() == (key_hash_bytes(w.last().0), w.last().1));
    assert(h.drop_last() =~= hashed_of(w.drop_last()));
    if w.last().0 == key {
    } else {
        assert(w[w.len() - 1] == w.last());
        assert(key_hash_bytes(w.last().0) != key_hash_bytes(key));
        assert forall|i: int|
            0 <= i < w.drop_last().len() && key_hash_bytes(
                (#[trigger] w.drop_last()[i]).0,
            ) == key_hash_bytes(key) implies w.drop_last()[i].0 == key by {
            assert(w.drop_last()[i] == w[i]);
        }
        lemma_writes_map_last_binding(w.drop_last(), key);
    }
}

/// Witness replay equivalence: a verifier consuming only the previous
/// root, the ordered writes and the witness derives the very root the host
/// recorded.  The host's state update extends the witness with the
/// previous root, a well-shaped update proof that verifies the transition,
/// and the new root; replaying those three hints confirms and returns that
/// root.
pub proof fn lemma_witness_replay_equivalence(
    prev_root: Seq<u8>,
    writes_hashed: Seq<(Seq<u8>, Option<Seq<u8>>)>,
    base: Seq<HintData>,
    update_proof: Seq<u8>,
    new_root: Seq<u8>,
)
    requires
        new_root.len() == 32,
        crate::proofshape::update_proof_admissible(
            update_proof,
            crate::proofshape::keys_of(writes_hashed),
        ),
        update_verifies(update_proof, prev_root, new_root, writes_hashed),
    ensures
        replay_model(
            prev_root,
            writes_hashed,
            base + seq![
                HintData::Root(prev_root),
                HintData::Proof(update_proof),
                HintData::Root(new_root),
            ],
            base.len() as int,
        ) == Some(new_root),
{
    let hints = base + seq![
        HintData::Root(prev_root),
        HintData::Proof(update_proof),
        HintData::Root(new_root),
    ];
    let pos = base.len() as int;
    assert(hints[pos] == HintData::Root(prev_root));
    assert(hints[pos + 1] == HintData::Proof(update_proof));
    assert(hints[pos + 2] == HintData::Root(new_root));
}

/// Layer precedence: when a key resolves anywhere in the snapshot's
/// ancestry, a read returns that speculative value — never the durable
/// one, whatever the durable store holds for the key.
pub proof fn lemma_layer_precedence(
    storage: HierarchicalProverStorage,
    m: SnapshotManager,
    key: Seq<u8>,
    speculative: Seq<u8>,
)
    requires
        resolve(m.state.layers@, storage.id.id as int, key) == Some(speculative),
    ensures
        storage.get_model(m, key) == Some(speculative),
{
}

/// A lock whose invariant pins one resolver state determines every read
/// completely: whatever resolver a reader observed, the result is the one
/// the pinned state gives.  This discharges the existential in the read
/// contracts for the common case of a layer set held stable for a batch.
pub proof fn lemma_pinned_lock_determines_reads(
    storage: HierarchicalProverStorage,
    m: SnapshotManager,
    observed: Option<Seq<u8>>,
    key: Seq<u8>,
)
    requires
        forall|x: SnapshotManager| #[trigger] (storage.parent.inv())(x) <==> x == m,
        exists|x: SnapshotManager|
            #[trigger] (storage.parent.inv())(x) && observed == storage.get_model(x, key),
    ensures
        observed == storage.get_model(m, key),
{
}

/// No entry of the log carries this key.
pub open spec fn never_written(m: Seq<(int, Seq<u8>, Option<Seq<u8>>)>, key: Seq<u8>) -> bool {
    forall|i: int| 0 <= i < m.len() ==> (#[trigger] m[i]).1 != key
}

/// A key no log entry carries reads as absent at every version.
pub proof fn lemma_kv_lookup_absent(
    m: Seq<(int, Seq<u8>, Option<Seq<u8>>)>,
    version: int,
    key: Seq<u8>,
)
    requires
        never_written(m, key),
    ensures
        kv_lookup(m, version, key) is None,
    decreases m.len(),
{
    if m.len() > 0 {
        assert(m.last() == m[m.len() - 1]);
        assert(forall|i: int|
            0 <= i < m.drop_last().len() ==> (#[trigger] m.drop_last()[i]) == m[i]);
        lemma_kv_lookup_absent(m.drop_last(), version, key);
    }
}

/// Idempotent absence: a key that no snapshot layer of the ancestry binds
/// and the durable log never wrote reads as absent, and stays absent after
/// any writes to other keys — extending the log with entries for other
/// keys leaves the read unchanged.  `get` records exactly this result in
/// the witness, so absence is itself witnessed faithfully.
pub proof fn lemma_idempotent_absence(
    storage: HierarchicalProverStorage,
    m: SnapshotManager,
    key: Seq<u8>,
    unrelated: Seq<(int, Seq<u8>, Option<Seq<u8>>)>,
    version: int,
)
    requires
        resolve(m.state.layers@, storage.id.id as int, key) is None,
        never_written(kv_model(storage.db.kv@), key),
        never_written(unrelated, key),
    ensures
        storage.get_model(m, key) is None,
        kv_lookup(kv_model(storage.db.kv@) + unrelated, version, key) is None,
{
    lemma_kv_lookup_absent(kv_model(storage.db.kv@), storage.db.next_version as int, key);
    assert(never_written(kv_model(storage.db.kv@) + unrelated, key)) by {
        let joined = kv_model(storage.db.kv@) + unrelated;
        assert forall|i: int| 0 <= i < joined.len() implies (#[trigger] joined[i]).1 != key by {
            if i < kv_model(storage.db.kv@).len() {
                assert(joined[i] == kv_model(storage.db.kv@)[i]);
            } else {
                assert(joined[i] == unrelated[i - kv_model(storage.db.kv@).len()]);
            }
        }
    }
    lemma_kv_lookup_absent(kv_model(storage.db.kv@) + unrelated, version, key);
}

} // verus!
