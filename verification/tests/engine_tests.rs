use prover_storage::db::{OwnedNodeBatch, StateDb};
use prover_storage::engine::{Config, HierarchicalProverStorage, NativeDb, StorageProof};
use prover_storage::lock::ReadOnlyLock;
use prover_storage::replay::verify_state_update;
use prover_storage::resolver::{SnapshotLayer, SnapshotManager};
use prover_storage::types::{
    Attestation, Challenge, ChallengeContents, OrderedReadsAndWrites, Root, SnapshotId,
    StorageError, StorageKey, StorageValue,
};
use prover_storage::witness::{Hint, Witness};

fn key(bytes: &[u8]) -> StorageKey {
    StorageKey::new(bytes.to_vec())
}

fn value(bytes: &[u8]) -> StorageValue {
    StorageValue::new(bytes.to_vec())
}

fn genesis_db() -> StateDb {
    let mut db = StateDb::new();
    assert!(db.init_genesis().is_ok());
    db
}

fn empty_lock() -> ReadOnlyLock<SnapshotManager> {
    ReadOnlyLock::pinned(SnapshotManager::new())
}

fn writes(pairs: &[(&[u8], Option<&[u8]>)]) -> OrderedReadsAndWrites {
    let mut w = OrderedReadsAndWrites::new();
    for (k, v) in pairs {
        w.add_write(key(k), v.map(|b| value(b)));
    }
    w
}

fn compute_and_commit(
    id: u64,
    db: StateDb,
    native: NativeDb,
    lock: ReadOnlyLock<SnapshotManager>,
    w: OrderedReadsAndWrites,
) -> (Root, StateDb, NativeDb, Witness) {
    let storage = HierarchicalProverStorage::new_from_db(SnapshotId { id }, db, native, lock);
    let mut witness = Witness::new();
    let (root, batch) = storage.compute_state_update(w, &mut witness).unwrap();
    let (mut db, native) = storage.into_dbs();
    db.commit_update(batch).unwrap();
    (root, db, native, witness)
}

#[test]
fn genesis_root_exists_and_store_is_empty() {
    let db = genesis_db();
    assert_eq!(db.get_next_version(), 1);
    assert!(db.tree.root_at(0).is_some());
    let storage = HierarchicalProverStorage::new_from_db(
        SnapshotId { id: 1 },
        db,
        NativeDb::new(),
        empty_lock(),
    );
    assert!(storage.is_empty());
}

#[test]
fn scenario_two_updates_and_proofs() {
    // Genesis at version 0 with no keys; write {A: "1"} -> R1; then
    // {A: "2", B: "1"} from R1 -> R2 != R1.  A's proof against R2 yields
    // "2"; the stale proof against R1 yields "1"; A's R2 proof checked
    // against R1 fails.
    let lock = empty_lock();
    let (root1, db, native, _) = compute_and_commit(
        1,
        genesis_db(),
        NativeDb::new(),
        lock.duplicate(),
        writes(&[(b"A", Some(b"1"))]),
    );
    let (root2, db, native, _) = compute_and_commit(
        2,
        db,
        native,
        lock.duplicate(),
        writes(&[(b"A", Some(b"2")), (b"B", Some(b"1"))]),
    );
    assert_ne!(root1.hash, root2.hash);

    let storage = HierarchicalProverStorage::new_from_db(SnapshotId { id: 3 }, db, native, lock);
    assert!(!storage.is_empty());

    let fresh = storage.prove(&key(b"A"), 2).unwrap();
    let (k, v) = HierarchicalProverStorage::open_proof(root2.duplicate(), fresh).unwrap();
    assert_eq!(k.as_bytes(), &b"A".to_vec());
    assert_eq!(v.unwrap().as_bytes(), &b"2".to_vec());

    let stale = storage.prove(&key(b"A"), 1).unwrap();
    let (_, v) = HierarchicalProverStorage::open_proof(root1.duplicate(), stale).unwrap();
    assert_eq!(v.unwrap().as_bytes(), &b"1".to_vec());

    let cross = storage.prove(&key(b"A"), 2).unwrap();
    let r = HierarchicalProverStorage::open_proof(root1.duplicate(), cross);
    assert!(matches!(r, Err(StorageError::ProofVerification)));
}

#[test]
fn proof_rejects_tampered_value_and_root() {
    let lock = empty_lock();
    let (root1, db, native, _) = compute_and_commit(
        1,
        genesis_db(),
        NativeDb::new(),
        lock.duplicate(),
        writes(&[(b"A", Some(b"1"))]),
    );
    let storage = HierarchicalProverStorage::new_from_db(SnapshotId { id: 2 }, db, native, lock);

    // Honest bundle round-trips.
    let honest = storage.prove(&key(b"A"), 1).unwrap();
    assert!(HierarchicalProverStorage::open_proof(root1.duplicate(), honest).is_ok());

    // A tampered value is rejected.
    let bundle = storage.prove(&key(b"A"), 1).unwrap();
    let tampered = StorageProof {
        key: bundle.key.duplicate(),
        value: Some(value(b"9")),
        proof: bundle.proof.duplicate(),
    };
    let r = HierarchicalProverStorage::open_proof(root1.duplicate(), tampered);
    assert!(matches!(r, Err(StorageError::ProofVerification)));

    // A mutated root is rejected.
    let mut wrong = root1.hash.clone();
    wrong[0] ^= 1;
    let r = HierarchicalProverStorage::open_proof(Root::new(wrong), bundle);
    assert!(matches!(r, Err(StorageError::ProofVerification)));

    // An exclusion proof for a never-written key round-trips too.
    let absent = storage.prove(&key(b"missing"), 1).unwrap();
    let (_, v) = HierarchicalProverStorage::open_proof(root1.duplicate(), absent).unwrap();
    assert!(v.is_none());
}

#[test]
fn determinism_same_inputs_same_root_and_witness() {
    let lock = empty_lock();
    let storage = HierarchicalProverStorage::new_from_db(
        SnapshotId { id: 1 },
        genesis_db(),
        NativeDb::new(),
        lock,
    );
    let mut w1 = Witness::new();
    let mut w2 = Witness::new();
    let (root_a, _) = storage
        .compute_state_update(writes(&[(b"x", Some(b"1")), (b"y", None)]), &mut w1)
        .unwrap();
    let (root_b, _) = storage
        .compute_state_update(writes(&[(b"x", Some(b"1")), (b"y", None)]), &mut w2)
        .unwrap();
    assert_eq!(root_a.hash, root_b.hash);
    assert_eq!(w1.len(), 3);
    assert_eq!(w2.len(), 3);
    for _ in 0..3 {
        match (w1.get_hint().unwrap(), w2.get_hint().unwrap()) {
            (Hint::Root(a), Hint::Root(b)) => assert_eq!(a, b),
            (Hint::Proof(a), Hint::Proof(b)) => assert_eq!(a, b),
            (Hint::Value(_), Hint::Value(_)) => panic!("no reads were recorded"),
            _ => panic!("hint kinds diverged"),
        }
    }
}

#[test]
fn determinism_across_independent_stores() {
    // Two stores built by the same history derive the same roots.
    let (root_a, _, _, _) = compute_and_commit(
        1,
        genesis_db(),
        NativeDb::new(),
        empty_lock(),
        writes(&[(b"k", Some(b"v"))]),
    );
    let (root_b, _, _, _) = compute_and_commit(
        2,
        genesis_db(),
        NativeDb::new(),
        empty_lock(),
        writes(&[(b"k", Some(b"v"))]),
    );
    assert_eq!(root_a.hash, root_b.hash);
}

#[test]
fn witness_replay_confirms_host_root() {
    let lock = empty_lock();
    let db = genesis_db();
    let prev = Root::new(db.tree.root_at(0).unwrap());
    let storage =
        HierarchicalProverStorage::new_from_db(SnapshotId { id: 1 }, db, NativeDb::new(), lock);
    let mut witness = Witness::new();
    let (root, _) = storage
        .compute_state_update(writes(&[(b"A", Some(b"1"))]), &mut witness)
        .unwrap();

    let confirmed = verify_state_update(&prev, &writes(&[(b"A", Some(b"1"))]), &mut witness)
        .unwrap();
    assert_eq!(confirmed.hash, root.hash);
}

#[test]
fn witness_replay_rejects_wrong_previous_root() {
    let lock = empty_lock();
    let db = genesis_db();
    let mut wrong = db.tree.root_at(0).unwrap();
    wrong[0] ^= 1;
    let storage =
        HierarchicalProverStorage::new_from_db(SnapshotId { id: 1 }, db, NativeDb::new(), lock);
    let mut witness = Witness::new();
    storage
        .compute_state_update(writes(&[(b"A", Some(b"1"))]), &mut witness)
        .unwrap();

    let r = verify_state_update(&Root::new(wrong), &writes(&[(b"A", Some(b"1"))]), &mut witness);
    assert!(matches!(r, Err(StorageError::RootMismatch)));

    // An exhausted witness reports a missing hint.
    let mut empty = Witness::new();
    let prev = Root::new(vec![0u8; 32]);
    let r = verify_state_update(&prev, &writes(&[]), &mut empty);
    assert!(matches!(r, Err(StorageError::WitnessExhausted)));
}

#[test]
fn witness_replay_rejects_wrong_writes() {
    let lock = empty_lock();
    let db = genesis_db();
    let prev = Root::new(db.tree.root_at(0).unwrap());
    let storage =
        HierarchicalProverStorage::new_from_db(SnapshotId { id: 1 }, db, NativeDb::new(), lock);
    let mut witness = Witness::new();
    storage
        .compute_state_update(writes(&[(b"A", Some(b"1"))]), &mut witness)
        .unwrap();

    let r = verify_state_update(&prev, &writes(&[(b"A", Some(b"2"))]), &mut witness);
    assert!(matches!(r, Err(StorageError::ProofVerification)));
}

#[test]
fn layer_precedence_speculative_value_wins() {
    // Key committed durably with one value and bound in the snapshot's
    // ancestry with another: the read returns the ancestry's value.
    let (_, db, native, _) = compute_and_commit(
        1,
        genesis_db(),
        NativeDb::new(),
        empty_lock(),
        writes(&[(b"A", Some(b"durable"))]),
    );

    let mut manager = SnapshotManager::new();
    let mut layer = SnapshotLayer::new(7, None);
    layer.add_write(b"A".to_vec(), value(b"speculative"));
    manager.state.add_layer(layer);
    let lock = ReadOnlyLock::pinned(manager);

    let storage = HierarchicalProverStorage::new_from_db(SnapshotId { id: 7 }, db, native, lock);
    let mut witness = Witness::new();
    let got = storage.get(&key(b"A"), &mut witness).unwrap();
    assert_eq!(got.as_bytes(), &b"speculative".to_vec());
    match witness.get_hint().unwrap() {
        Hint::Value(Some(v)) => assert_eq!(v.as_bytes(), &b"speculative".to_vec()),
        _ => panic!("the read must be witnessed"),
    }
}

#[test]
fn ancestry_chain_resolves_through_parent() {
    // The child layer has no binding; its parent does; durable storage
    // holds a third value.  The parent's speculative value answers.
    let (_, db, native, _) = compute_and_commit(
        1,
        genesis_db(),
        NativeDb::new(),
        empty_lock(),
        writes(&[(b"A", Some(b"durable"))]),
    );

    let mut manager = SnapshotManager::new();
    let mut parent = SnapshotLayer::new(5, None);
    parent.add_write(b"A".to_vec(), value(b"from-parent"));
    manager.state.add_layer(parent);
    manager.state.add_layer(SnapshotLayer::new(9, Some(5)));
    let lock = ReadOnlyLock::pinned(manager);

    let storage = HierarchicalProverStorage::new_from_db(SnapshotId { id: 9 }, db, native, lock);
    let mut witness = Witness::new();
    let got = storage.get(&key(b"A"), &mut witness).unwrap();
    assert_eq!(got.as_bytes(), &b"from-parent".to_vec());

    // A key nowhere in the ancestry falls through to durable storage.
    let storage2 = {
        let (db, native) = storage.into_dbs();
        let mut manager = SnapshotManager::new();
        manager.state.add_layer(SnapshotLayer::new(9, None));
        HierarchicalProverStorage::new_from_db(
            SnapshotId { id: 9 },
            db,
            native,
            ReadOnlyLock::pinned(manager),
        )
    };
    let got = storage2.get(&key(b"A"), &mut witness).unwrap();
    assert_eq!(got.as_bytes(), &b"durable".to_vec());
}

#[test]
fn sibling_snapshots_do_not_observe_each_other() {
    // Two engines on sibling snapshots (same parent, different ids), each
    // with a disjoint speculative write: neither sees the other's.
    let mut manager = SnapshotManager::new();
    manager.state.add_layer(SnapshotLayer::new(1, None));
    let mut left = SnapshotLayer::new(10, Some(1));
    left.add_write(b"left-key".to_vec(), value(b"left"));
    let mut right = SnapshotLayer::new(11, Some(1));
    right.add_write(b"right-key".to_vec(), value(b"right"));
    manager.state.add_layer(left);
    manager.state.add_layer(right);
    let lock = ReadOnlyLock::pinned(manager);

    let storage_left = HierarchicalProverStorage::new_from_db(
        SnapshotId { id: 10 },
        genesis_db(),
        NativeDb::new(),
        lock.duplicate(),
    );
    let storage_right = HierarchicalProverStorage::new_from_db(
        SnapshotId { id: 11 },
        genesis_db(),
        NativeDb::new(),
        lock,
    );

    let mut witness = Witness::new();
    assert!(storage_left.get(&key(b"right-key"), &mut witness).is_none());
    assert!(storage_right.get(&key(b"left-key"), &mut witness).is_none());
    let own = storage_left.get(&key(b"left-key"), &mut witness).unwrap();
    assert_eq!(own.as_bytes(), &b"left".to_vec());
    let own = storage_right.get(&key(b"right-key"), &mut witness).unwrap();
    assert_eq!(own.as_bytes(), &b"right".to_vec());
}

#[test]
fn absent_key_stays_absent_and_is_witnessed() {
    // A never-written key reads as absent, before and after unrelated
    // writes, and each absence lands in the witness.
    let lock = empty_lock();
    let storage = HierarchicalProverStorage::new_from_db(
        SnapshotId { id: 1 },
        genesis_db(),
        NativeDb::new(),
        lock.duplicate(),
    );
    let mut witness = Witness::new();
    assert!(storage.get(&key(b"ghost-key"), &mut witness).is_none());

    let (db, native) = storage.into_dbs();
    let (_, db, native, _) =
        compute_and_commit(2, db, native, lock.duplicate(), writes(&[(b"other", Some(b"1"))]));
    let storage = HierarchicalProverStorage::new_from_db(SnapshotId { id: 3 }, db, native, lock);
    assert!(storage.get(&key(b"ghost-key"), &mut witness).is_none());

    for _ in 0..2 {
        match witness.get_hint().unwrap() {
            Hint::Value(None) => {},
            _ => panic!("absence must be witnessed as an absent value"),
        }
    }
    assert!(witness.get_hint().is_none());
}

#[test]
fn deletion_write_reads_as_absent() {
    let lock = empty_lock();
    let (_, db, native, _) = compute_and_commit(
        1,
        genesis_db(),
        NativeDb::new(),
        lock.duplicate(),
        writes(&[(b"A", Some(b"1"))]),
    );
    let (_, db, native, _) =
        compute_and_commit(2, db, native, lock.duplicate(), writes(&[(b"A", None)]));
    let storage = HierarchicalProverStorage::new_from_db(SnapshotId { id: 3 }, db, native, lock);
    let mut witness = Witness::new();
    assert!(storage.get(&key(b"A"), &mut witness).is_none());
}

#[test]
fn pending_batch_reports_its_writes_and_snapshot() {
    let lock = empty_lock();
    let storage = HierarchicalProverStorage::new_from_db(
        SnapshotId { id: 42 },
        genesis_db(),
        NativeDb::new(),
        lock,
    );
    let mut witness = Witness::new();
    let (_, batch): (Root, OwnedNodeBatch) = storage
        .compute_state_update(
            writes(&[(b"A", Some(b"1")), (b"B", None), (b"A", Some(b"2"))]),
            &mut witness,
        )
        .unwrap();
    assert_eq!(batch.get_snapshot_id(), SnapshotId { id: 42 });
    // The batch extends the genesis version 0 and occupies version 1: the
    // version a proof is checked against is the one the batch produced.
    assert_eq!(batch.version, 1);
    // The last write for a key wins; a deletion reads as absence.
    assert_eq!(batch.get_value(&key(b"A")).unwrap().as_bytes(), &b"2".to_vec());
    assert!(batch.get_value(&key(b"B")).is_none());
    assert!(batch.get_value(&key(b"C")).is_none());
}

#[test]
fn accessory_reads_resolve_layers_then_side_store() {
    let mut native = NativeDb::new();
    native.set_value(b"idx".to_vec(), value(b"durable-idx"));

    let mut manager = SnapshotManager::new();
    let mut layer = SnapshotLayer::new(4, None);
    layer.add_write(b"idx".to_vec(), value(b"speculative-idx"));
    manager.accessory.add_layer(layer);
    let lock = ReadOnlyLock::pinned(manager);

    let storage = HierarchicalProverStorage::new_from_db(
        SnapshotId { id: 4 },
        genesis_db(),
        native,
        lock.duplicate(),
    );
    let got = storage.get_accessory(&key(b"idx")).unwrap();
    assert_eq!(got.as_bytes(), &b"speculative-idx".to_vec());

    // Another snapshot without an accessory layer falls through.
    let (db, native) = storage.into_dbs();
    let storage = HierarchicalProverStorage::new_from_db(SnapshotId { id: 6 }, db, native, lock);
    let got = storage.get_accessory(&key(b"idx")).unwrap();
    assert_eq!(got.as_bytes(), &b"durable-idx".to_vec());
    assert!(storage.get_accessory(&key(b"absent")).is_none());
}

#[test]
fn commit_and_with_config_are_unsupported() {
    let storage = HierarchicalProverStorage::new_from_db(
        SnapshotId { id: 1 },
        genesis_db(),
        NativeDb::new(),
        empty_lock(),
    );
    let mut witness = Witness::new();
    let (_, batch) = storage
        .compute_state_update(writes(&[(b"A", Some(b"1"))]), &mut witness)
        .unwrap();
    let r = storage.commit(&batch, &writes(&[]));
    assert!(matches!(r, Err(StorageError::UnsupportedOperation)));
    let r = HierarchicalProverStorage::with_config(Config {});
    assert!(matches!(r, Err(StorageError::UnsupportedOperation)));
}

#[test]
fn witness_hints_come_back_in_order() {
    let mut w = Witness::new();
    w.add_hint(Hint::Root(vec![1u8; 32]));
    w.add_hint(Hint::Value(None));
    w.add_hint(Hint::Proof(vec![2, 3]));
    assert_eq!(w.len(), 3);
    assert!(matches!(w.get_hint(), Some(Hint::Root(_))));
    assert!(matches!(w.get_hint(), Some(Hint::Value(None))));
    match w.get_hint() {
        Some(Hint::Proof(p)) => assert_eq!(p, vec![2, 3]),
        _ => panic!("hints must come back in production order"),
    }
    assert!(w.get_hint().is_none());
}

#[test]
fn key_hash_is_a_real_digest() {
    // The trusted hashing wrapper must transform its input: a 32-byte
    // digest that differs from the key bytes and separates distinct keys.
    let a = prover_storage::tree::key_hash(&b"A".to_vec());
    let b = prover_storage::tree::key_hash(&b"B".to_vec());
    assert_eq!(a.len(), 32);
    assert_eq!(b.len(), 32);
    assert_ne!(a, b);
    assert_ne!(a, b"A".to_vec());
    let a2 = prover_storage::tree::key_hash(&b"A".to_vec());
    assert_eq!(a, a2);

    // The digest is the 256-bit SHA-2 hash of the key bytes.
    let expected = [
        0x55u8, 0x9a, 0xea, 0xd0, 0x82, 0x64, 0xd5, 0x79, 0x5d, 0x39, 0x09, 0x71, 0x8c, 0xdd,
        0x05, 0xab, 0xd4, 0x95, 0x72, 0xe8, 0x4f, 0xe5, 0x55, 0x90, 0xee, 0xf3, 0x1a, 0x88,
        0xa0, 0x8f, 0xdf, 0xfd,
    ];
    assert_eq!(a, expected.to_vec());
}

#[test]
fn witness_replay_rejects_oversized_proof_bytes() {
    // A crafted update proof carrying one entry with 300 siblings decodes
    // fine but must be screened out before it reaches the tree
    // arithmetic, whose update check has no sibling-count guard.
    let mut crafted: Vec<u8> = Vec::new();
    crafted.extend_from_slice(&[1, 0, 0, 0]); // one entry
    crafted.push(0); // no leaf
    crafted.extend_from_slice(&[44, 1, 0, 0]); // 300 siblings
    crafted.extend_from_slice(&[0u8; 300]); // all of them null
    assert!(!prover_storage::proofshape::check_update_proof_shape(&crafted));

    let mut witness = Witness::new();
    let prev = Root::new(vec![7u8; 32]);
    witness.add_hint(Hint::Root(prev.hash.clone()));
    witness.add_hint(Hint::Proof(crafted));
    witness.add_hint(Hint::Root(vec![8u8; 32]));
    let r = verify_state_update(&prev, &writes(&[(b"A", Some(b"1"))]), &mut witness);
    assert!(matches!(r, Err(StorageError::ProofVerification)));
}

#[test]
fn witness_replay_rejects_off_path_leaf() {
    // An entry whose recorded leaf shares no prefix bit with the write key
    // yet claims a sibling must be screened out: the tree arithmetic's
    // update check would rebuild a path from it with unguarded
    // subtractions.
    let write_key_hash = prover_storage::tree::key_hash(&b"A".to_vec());
    let leaf = if write_key_hash[0] & 0x80 == 0 { 0xffu8 } else { 0x00u8 };
    let mut crafted: Vec<u8> = Vec::new();
    crafted.extend_from_slice(&[1, 0, 0, 0]); // one entry
    crafted.push(1); // a leaf follows
    crafted.extend_from_slice(&[leaf; 64]); // its key and value hashes
    crafted.extend_from_slice(&[1, 0, 0, 0]); // one sibling claimed
    crafted.push(0); // a null sibling
    let mut writes_arg: Vec<(Vec<u8>, Option<Vec<u8>>)> = Vec::new();
    writes_arg.push((write_key_hash.clone(), Some(b"1".to_vec())));
    assert!(!prover_storage::proofshape::check_update_proof_admissible(&crafted, &writes_arg));

    // With no sibling claimed the same leaf is harmless and passes.
    let mut benign: Vec<u8> = Vec::new();
    benign.extend_from_slice(&[1, 0, 0, 0]);
    benign.push(1);
    benign.extend_from_slice(&[leaf; 64]);
    benign.extend_from_slice(&[0, 0, 0, 0]);
    assert!(prover_storage::proofshape::check_update_proof_admissible(&benign, &writes_arg));

    // Through the replay path, the off-path proof is a reported mismatch.
    let mut witness = Witness::new();
    let prev = Root::new(vec![7u8; 32]);
    witness.add_hint(Hint::Root(prev.hash.clone()));
    witness.add_hint(Hint::Proof(crafted));
    witness.add_hint(Hint::Root(vec![8u8; 32]));
    let r = verify_state_update(&prev, &writes(&[(b"A", Some(b"1"))]), &mut witness);
    assert!(matches!(r, Err(StorageError::ProofVerification)));
}

#[test]
fn witness_replay_confirms_second_update() {
    // Replay of an update over existing keys: the host's proof entries
    // then carry real leaves, which must pass the admissibility screen.
    let lock = empty_lock();
    let (root1, db, native, _) = compute_and_commit(
        1,
        genesis_db(),
        NativeDb::new(),
        lock.duplicate(),
        writes(&[(b"A", Some(b"1"))]),
    );
    let storage = HierarchicalProverStorage::new_from_db(SnapshotId { id: 2 }, db, native, lock);
    let mut witness = Witness::new();
    let (root2, _) = storage
        .compute_state_update(
            writes(&[(b"A", Some(b"2")), (b"B", Some(b"1")), (b"C", None)]),
            &mut witness,
        )
        .unwrap();
    let confirmed = verify_state_update(
        &root1,
        &writes(&[(b"A", Some(b"2")), (b"B", Some(b"1")), (b"C", None)]),
        &mut witness,
    )
    .unwrap();
    assert_eq!(confirmed.hash, root2.hash);
}

#[test]
fn proof_shape_screen_accepts_host_proofs() {
    // The screen must pass every proof the host itself serializes.
    let lock = empty_lock();
    let storage = HierarchicalProverStorage::new_from_db(
        SnapshotId { id: 1 },
        genesis_db(),
        NativeDb::new(),
        lock,
    );
    let mut witness = Witness::new();
    storage
        .compute_state_update(
            writes(&[(b"A", Some(b"1")), (b"B", Some(b"2")), (b"C", None)]),
            &mut witness,
        )
        .unwrap();
    witness.get_hint().unwrap(); // previous root
    match witness.get_hint().unwrap() {
        Hint::Proof(bytes) => {
            assert!(prover_storage::proofshape::check_update_proof_shape(&bytes));
        },
        _ => panic!("the second hint is the update proof"),
    }
}

#[test]
fn challenge_types_carry_their_payloads() {
    let blob = b"challenge-bytes".to_vec();
    let challenge = Challenge(&blob);
    assert_eq!(challenge.0, blob.as_slice());
    let contents = ChallengeContents {
        challenger_address: 77u64,
        state_transition: vec![1u8, 2u8],
    };
    assert_eq!(contents.challenger_address, 77u64);
    assert_eq!(contents.state_transition, vec![1u8, 2u8]);
}

#[test]
fn attestation_carries_its_bond_proof() {
    let att = Attestation {
        initial_state_root: [0u8; 32],
        da_block_hash: [1u8; 32],
        post_state_root: [2u8; 32],
        proof_of_bond: vec![9u8, 9u8],
    };
    assert_eq!(att.proof_of_bond, vec![9u8, 9u8]);
    assert_ne!(att.initial_state_root, att.post_state_root);
}
