//! The verifier's side of a state update: consuming only the previous
//! root, the ordered writes and the witness, it re-derives and checks the
//! new root the host computed, pulling hints in exactly the order the host
//! pushed them.

use vstd::prelude::*;
use crate::{bytes_eq, clone_bytes};
use crate::types::{writes_model, OrderedReadsAndWrites, Root, StorageError};
use crate::witness::{Hint, HintData, Witness};
use crate::engine::hashed_of;
use crate::tree::{hashes_are_wide, key_hash, key_hash_bytes, plain_writes_model, update_verifies};

verus! {

/// What replaying a witness from position `pos` yields: the new root, when
/// the next three hints are the claimed previous root, a well-shaped
/// update proof that verifies the transition under the hashed writes, and
/// that new root; otherwise a reported mismatch.
pub open spec fn replay_model(
    prev_root: Seq<u8>,
    writes_hashed: Seq<(Seq<u8>, Option<Seq<u8>>)>,
    hints: Seq<HintData>,
    pos: int,
) -> Option<Seq<u8>> {
    if pos < 0 || pos + 3 > hints.len() {
        None
    } else {
        match (hints[pos], hints[pos + 1], hints[pos + 2]) {
            (HintData::Root(pr), HintData::Proof(pb), HintData::Root(nr)) => {
                if pr == prev_root && nr.len() == 32
                    && crate::proofshape::update_proof_admissible(
                    pb,
                    crate::proofshape::keys_of(writes_hashed),
                ) && update_verifies(pb, prev_root, nr, writes_hashed) {
                    Some(nr)
                } else {
                    None
                }
            },
            _ => None,
        }
    }
}

/// Replays one state update from the witness: confirms the recorded
/// starting root matches the claimed one, checks the recorded update proof
/// against the ordered writes, and returns the confirmed new root.  There
/// is no partial outcome: the transition is confirmed or a mismatch is
/// reported.
pub fn verify_state_update(
    prev_root: &Root,
    writes: &OrderedReadsAndWrites,
    witness: &mut Witness,
) -> (r: Result<Root, StorageError>)
    requires
        prev_root.wf(),
    ensures
        final(witness).hints() == old(witness).hints(),
        old(witness).position() <= final(witness).position() <= old(witness).position() + 3,
        match r {
            Ok(root) => Some(root@) == replay_model(prev_root@, hashed_of(writes@),
                old(witness).hints(), old(witness).position()) && final(witness).position()
                == old(witness).position() + 3,
            Err(_) => replay_model(prev_root@, hashed_of(writes@), old(witness).hints(),
                old(witness).position()) is None,
        },
{
    let recorded_prev = match witness.get_hint() {
        Some(Hint::Root(b)) => b,
        Some(_) => {
            return Err(StorageError::WitnessExhausted);
        },
        None => {
            return Err(StorageError::WitnessExhausted);
        },
    };
    if !bytes_eq(&recorded_prev, prev_root.as_bytes()) {
        return Err(StorageError::RootMismatch);
    }
    let proof_bytes = match witness.get_hint() {
        Some(Hint::Proof(b)) => b,
        Some(_) => {
            return Err(StorageError::WitnessExhausted);
        },
        None => {
            return Err(StorageError::WitnessExhausted);
        },
    };
    let new_root = match witness.get_hint() {
        Some(Hint::Root(b)) => b,
        Some(_) => {
            return Err(StorageError::WitnessExhausted);
        },
        None => {
            return Err(StorageError::WitnessExhausted);
        },
    };
    if new_root.len() != 32 {
        return Err(StorageError::ProofVerification);
    }

    let ghost in_model = writes@;
    let mut hashed: Vec<(Vec<u8>, Option<Vec<u8>>)> = Vec::new();
    let mut i: usize = 0;
    while i < writes.ordered_writes.len()
        invariant
            i <= writes.ordered_writes@.len(),
            in_model == writes_model(writes.ordered_writes@),
            plain_writes_model(hashed@) =~= hashed_of(in_model.take(i as int)),
            hashes_are_wide(hashed@),
        decreases writes.ordered_writes@.len() - i,
    {
        let kh = key_hash(&writes.ordered_writes[i].0.key);
        let value_bytes = match &writes.ordered_writes[i].1 {
            Some(v) => Some(clone_bytes(&v.value)),
            None => None,
        };
        hashed.push((kh, value_bytes));
        proof {
            assert(plain_writes_model(hashed@) =~= plain_writes_model(hashed@.drop_last()).push(
                (hashed@.last().0@, crate::tree::opt_bytes_model(hashed@.last().1)),
            ));
            assert(hashed_of(in_model.take(i as int + 1)) =~= hashed_of(
                in_model.take(i as int),
            ).push((key_hash_bytes(in_model[i as int].0), in_model[i as int].1)));
        }
        i = i + 1;
    }
    proof {
        assert(in_model.take(in_model.len() as int) =~= in_model);
    }

    // Screen the untrusted proof bytes before they reach the tree
    // arithmetic: oversized or off-path proofs are rejected here, never
    // handed to the update check.
    if !crate::proofshape::check_update_proof_admissible(&proof_bytes, &hashed) {
        return Err(StorageError::ProofVerification);
    }
    if crate::tree::verify_update_bytes(&proof_bytes, prev_root.as_bytes(), &new_root, &hashed) {
        proof {
            let hs = old(witness).hints();
            let pos = old(witness).position();
            assert(plain_writes_model(hashed@) == hashed_of(writes@));
            assert(hs[pos] == HintData::Root(prev_root@));
            assert(hs[pos + 1] == HintData::Proof(proof_bytes@));
            assert(hs[pos + 2] == HintData::Root(new_root@));
            assert(replay_model(prev_root@, hashed_of(writes@), hs, pos) == Some(new_root@));
        }
        Ok(Root::new(new_root))
    } else {
        Err(StorageError::ProofVerification)
    }
}

} // verus!
