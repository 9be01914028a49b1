//! A structural screen over serialized update proofs.  An update proof is
//! a borsh-encoded vector of per-write entries, each an optional 64-byte
//! leaf, a 32-bit little-endian sibling count, and that many siblings — a
//! one-byte kind tag carrying nothing, or 64 bytes of node payload.  A
//! well-formed proof has at most 256 siblings per entry, one per tree
//! level; the tree arithmetic's update check subtracts the sibling count
//! from 256 without a guard, so untrusted proof bytes are screened here,
//! in verified code, before they reach it.

use vstd::prelude::*;

verus! {

/// The 32-bit little-endian integer at `pos`.
pub open spec fn le32_at(b: Seq<u8>, pos: int) -> int {
    b[pos] + 0x100 * b[pos + 1] + 0x10000 * b[pos + 2] + 0x1000000 * b[pos + 3]
}

/// Where `count` siblings starting at `pos` end, or `None` if they are
/// malformed or run past the buffer.
pub open spec fn siblings_end(b: Seq<u8>, pos: int, count: int) -> Option<int>
    decreases count,
{
    if count <= 0 {
        Some(pos)
    } else if pos + 1 > b.len() {
        None
    } else if b[pos] == 0 {
        siblings_end(b, pos + 1, count - 1)
    } else if (b[pos] == 1 || b[pos] == 2) && pos + 65 <= b.len() {
        siblings_end(b, pos + 65, count - 1)
    } else {
        None
    }
}

/// Where the entry starting at `pos` ends, or `None` if it is malformed,
/// runs past the buffer, or carries more than 256 siblings.
pub open spec fn entry_end(b: Seq<u8>, pos: int) -> Option<int> {
    if pos + 1 > b.len() {
        None
    } else if b[pos] != 0 && b[pos] != 1 {
        None
    } else {
        let leaf_len: int = if b[pos] == 0 {
            0
        } else {
            64
        };
        if pos + 1 + leaf_len + 4 > b.len() {
            None
        } else {
            let count = le32_at(b, pos + 1 + leaf_len);
            if count > 256 {
                None
            } else {
                siblings_end(b, pos + 1 + leaf_len + 4, count)
            }
        }
    }
}

/// Where `n` entries starting at `pos` end, or `None`.
pub open spec fn entries_end(b: Seq<u8>, pos: int, n: int) -> Option<int>
    decreases n,
{
    if n <= 0 {
        Some(pos)
    } else {
        match entry_end(b, pos) {
            None => None,
            Some(p) => entries_end(b, p, n - 1),
        }
    }
}

/// Whether the bytes are a whole, well-formed serialized update proof with
/// at most 256 siblings in every entry.
pub open spec fn update_proof_shape_ok(b: Seq<u8>) -> bool {
    b.len() >= 4 && entries_end(b, 4, le32_at(b, 0)) == Some(b.len() as int)
}

/// Bit `i` of a byte string, most significant bit of each byte first —
/// the order the tree walks key digests in.
pub open spec fn bit_of(b: Seq<u8>, i: int) -> bool {
    (b[i / 8] >> ((7 - (i % 8)) as u8)) & 1 == 1
}

/// How many leading bits two 32-byte digests share, counted from bit `i`.
pub open spec fn cpb_from(a: Seq<u8>, b: Seq<u8>, i: int) -> int
    decreases 256 - i,
{
    if i < 0 || i >= 256 {
        0
    } else if bit_of(a, i) == bit_of(b, i) {
        1 + cpb_from(a, b, i + 1)
    } else {
        0
    }
}

/// The length of the common bit prefix of two 32-byte digests.
pub open spec fn common_prefix_bits(a: Seq<u8>, b: Seq<u8>) -> int {
    cpb_from(a, b, 0)
}

/// The key hashes of a hashed write set, in order.
pub open spec fn keys_of(w: Seq<(Seq<u8>, Option<Seq<u8>>)>) -> Seq<Seq<u8>> {
    w.map(|i: int, p: (Seq<u8>, Option<Seq<u8>>)| p.0)
}

/// Whether the entry starting at `pos` is admissible against the write
/// key hash it answers for: a recorded leaf is either that key itself or
/// lies on its path, sharing at least one prefix bit per recorded
/// sibling.  The tree's update check rebuilds the path from the leaf
/// under this assumption; a leaf off the path would drive its unguarded
/// arithmetic below zero.
pub open spec fn entry_admissible(b: Seq<u8>, pos: int, key: Seq<u8>) -> bool {
    if pos + 1 > b.len() || b[pos] != 1 {
        true
    } else {
        let leaf_key = b.subrange(pos + 1, pos + 33);
        let count = le32_at(b, pos + 65);
        leaf_key == key || common_prefix_bits(leaf_key, key) >= count
    }
}

/// Whether every entry from the `j`-th on is admissible against its write
/// key.
pub open spec fn entries_admissible(b: Seq<u8>, pos: int, keys: Seq<Seq<u8>>, j: int) -> bool
    decreases keys.len() - j,
{
    if j < 0 || j >= keys.len() {
        true
    } else {
        entry_admissible(b, pos, keys[j]) && (entry_end(b, pos) matches Some(p)
            ==> entries_admissible(b, p, keys, j + 1))
    }
}

/// Whether the bytes are a well-formed serialized update proof whose
/// entries, paired with the write set they answer for, keep every
/// recorded leaf on its write key's path.  When the entry count differs
/// from the write count the pairing is moot: the update check rejects the
/// proof outright before touching any entry.
pub open spec fn update_proof_admissible(b: Seq<u8>, keys: Seq<Seq<u8>>) -> bool {
    update_proof_shape_ok(b) && (le32_at(b, 0) == keys.len() ==> entries_admissible(
        b,
        4,
        keys,
        0,
    ))
}

/// The 32-bit little-endian integer at `pos`.
fn le32(b: &Vec<u8>, pos: usize) -> (r: u64)
    requires
        pos + 4 <= b@.len(),
    ensures
        r == le32_at(b@, pos as int),
        r < 0x100000000,
{
    let end = b.len();
    proof {
        assert(pos + 4 <= end);
    }
    (b[pos] as u64) + 0x100 * (b[pos + 1] as u64) + 0x10000 * (b[pos + 2] as u64) + 0x1000000 * (
    b[pos + 3] as u64)
}

/// Decides [`update_proof_shape_ok`] for untrusted proof bytes, so the
/// tree arithmetic's update check is only ever reached with proofs it
/// handles without fault.
pub fn check_update_proof_shape(b: &Vec<u8>) -> (r: bool)
    ensures
        r == update_proof_shape_ok(b@),
{
    if b.len() < 4 {
        return false;
    }
    let n: u64 = le32(b, 0);
    let mut pos: usize = 4;
    let mut i: u64 = 0;
    while i < n
        invariant
            4 <= pos <= b@.len(),
            i <= n,
            n == le32_at(b@, 0),
            b@.len() >= 4,
            entries_end(b@, 4, n as int) == entries_end(b@, pos as int, n - i),
        decreases n - i,
    {
        let ghost entry_pos = pos as int;
        // The optional leaf: a tag byte, then 64 bytes when present.
        if pos >= b.len() {
            return false;
        }
        let tag = b[pos];
        let leaf_len: usize = if tag == 0 {
            0
        } else if tag == 1 {
            64
        } else {
            return false;
        };
        // The sibling count, and room to read it.
        if b.len() - pos < 1 + leaf_len + 4 {
            return false;
        }
        let count = le32(b, pos + 1 + leaf_len);
        if count > 256 {
            return false;
        }
        pos = pos + 1 + leaf_len + 4;
        let mut j: u64 = 0;
        while j < count
            invariant
                4 <= pos <= b@.len(),
                j <= count,
                i < n,
                b@.len() >= 4,
                n == le32_at(b@, 0),
                entries_end(b@, 4, n as int) == entries_end(b@, entry_pos, n - i),
                entry_end(b@, entry_pos) == siblings_end(b@, pos as int, count - j),
            decreases count - j,
        {
            if pos >= b.len() {
                return false;
            }
            let t = b[pos];
            if t == 0 {
                pos = pos + 1;
            } else if t == 1 || t == 2 {
                if b.len() - pos < 65 {
                    return false;
                }
                pos = pos + 65;
            } else {
                return false;
            }
            j = j + 1;
        }
        proof {
            assert(entry_end(b@, entry_pos) == Some(pos as int));
        }
        i = i + 1;
    }
    pos == b.len()
}

/// The length of the common bit prefix of two 32-byte digests.
fn common_prefix_bits_exec(a: &Vec<u8>, b: &Vec<u8>) -> (r: u64)
    requires
        a@.len() == 32,
        b@.len() == 32,
    ensures
        r == common_prefix_bits(a@, b@),
{
    let mut i: usize = 0;
    while i < 256
        invariant
            i <= 256,
            a@.len() == 32,
            b@.len() == 32,
            common_prefix_bits(a@, b@) == i + cpb_from(a@, b@, i as int),
        decreases 256 - i,
    {
        let shift: u8 = (7 - (i % 8)) as u8;
        let bit_a = (a[i / 8] >> shift) & 1 == 1;
        let bit_b = (b[i / 8] >> shift) & 1 == 1;
        if bit_a != bit_b {
            return i as u64;
        }
        i = i + 1;
    }
    256
}

/// Decides [`update_proof_admissible`] for untrusted proof bytes against
/// the hashed write set they claim to prove, so the tree arithmetic's
/// update check is only ever reached with proofs it handles without
/// fault.
pub fn check_update_proof_admissible(
    b: &Vec<u8>,
    writes: &Vec<(Vec<u8>, Option<Vec<u8>>)>,
) -> (r: bool)
    requires
        crate::tree::hashes_are_wide(writes@),
    ensures
        r == update_proof_admissible(b@, keys_of(crate::tree::plain_writes_model(writes@))),
{
    let ghost keys = keys_of(crate::tree::plain_writes_model(writes@));
    if !check_update_proof_shape(b) {
        return false;
    }
    let n: u64 = le32(b, 0);
    if n != writes.len() as u64 {
        return true;
    }
    proof {
        vstd::std_specs::vec::axiom_spec_len(b);
    }
    let mut pos: usize = 4;
    let mut i: u64 = 0;
    while i < n
        invariant
            4 <= pos <= b@.len(),
            b@.len() <= usize::MAX,
            i <= n,
            n == le32_at(b@, 0),
            n == writes@.len(),
            b@.len() >= 4,
            crate::tree::hashes_are_wide(writes@),
            keys == keys_of(crate::tree::plain_writes_model(writes@)),
            update_proof_shape_ok(b@),
            entries_end(b@, pos as int, n - i) == Some(b@.len() as int),
            entries_admissible(b@, 4, keys, 0) == entries_admissible(b@, pos as int, keys, i as int),
        decreases n - i,
    {
        let ghost entry_pos = pos as int;
        proof {
            assert(entry_end(b@, entry_pos) is Some);
        }
        let tag = b[pos];
        proof {
            if b@[entry_pos] == 1 {
                assert(entry_pos + 69 <= b@.len());
            } else {
                assert(entry_pos + 5 <= b@.len());
            }
        }
        if tag == 1 {
            // Copy the recorded leaf's key hash out for the path check.
            let mut leaf_key: Vec<u8> = Vec::new();
            let mut k: usize = 0;
            while k < 32
                invariant
                    k <= 32,
                    pos + 69 <= b@.len(),
                    b@.len() <= usize::MAX,
                    leaf_key@ =~= b@.subrange(entry_pos + 1, entry_pos + 1 + k),
                    pos == entry_pos,
                decreases 32 - k,
            {
                leaf_key.push(b[pos + 1 + k]);
                proof {
                    assert(leaf_key@ =~= b@.subrange(entry_pos + 1, entry_pos + 1 + k + 1));
                }
                k = k + 1;
            }
            let count = le32(b, pos + 65);
            let wi: usize = i as usize;
            let on_path = crate::bytes_eq(&leaf_key, &writes[wi].0) || common_prefix_bits_exec(
                &leaf_key,
                &writes[wi].0,
            ) >= count;
            if !on_path {
                proof {
                    assert(!entry_admissible(b@, entry_pos, keys[i as int]));
                }
                return false;
            }
            proof {
                assert(entry_admissible(b@, entry_pos, keys[i as int]));
            }
        } else {
            proof {
                assert(entry_admissible(b@, entry_pos, keys[i as int]));
            }
        }
        // Advance over the entry, whose shape the first pass settled.
        let leaf_len: usize = if tag == 1 {
            64
        } else {
            0
        };
        let count = le32(b, pos + 1 + leaf_len);
        pos = pos + 1 + leaf_len + 4;
        let mut j: u64 = 0;
        while j < count
            invariant
                4 <= pos <= b@.len(),
                b@.len() <= usize::MAX,
                j <= count,
                entry_end(b@, entry_pos) == siblings_end(b@, pos as int, count - j),
                entry_end(b@, entry_pos) is Some,
            decreases count - j,
        {
            proof {
                assert(pos + 1 <= b@.len());
                if b@[pos as int] != 0 {
                    assert(pos + 65 <= b@.len());
                }
            }
            let t = b[pos];
            if t == 0 {
                pos = pos + 1;
            } else {
                pos = pos + 65;
            }
            j = j + 1;
        }
        proof {
            assert(entry_end(b@, entry_pos) == Some(pos as int));
        }
        i = i + 1;
    }
    true
}

} // verus!
