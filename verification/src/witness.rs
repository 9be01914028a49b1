//! The witness: an ordered, append-only record of every externally
//! observable fact the engine used, consumed first-in-first-out by a
//! verifier replaying the batch.

use vstd::prelude::*;
use crate::clone_bytes;
use crate::types::{opt_value_model, duplicate_opt_value, StorageValue};

verus! {

/// One recorded fact: a raw value read (or its absence), a root hash, or a
/// serialized proof object.
pub enum Hint {
    Value(Option<StorageValue>),
    Root(Vec<u8>),
    Proof(Vec<u8>),
}

/// The abstract content of a hint.
pub enum HintData {
    Value(Option<Seq<u8>>),
    Root(Seq<u8>),
    Proof(Seq<u8>),
}

/// The abstract content of an exec hint.
pub open spec fn hint_model(h: Hint) -> HintData {
    match h {
        Hint::Value(v) => HintData::Value(opt_value_model(v)),
        Hint::Root(r) => HintData::Root(r@),
        Hint::Proof(p) => HintData::Proof(p@),
    }
}

impl Hint {
    pub fn duplicate(&self) -> (r: Self)
        ensures
            hint_model(r) == hint_model(*self),
    {
        match self {
            Hint::Value(v) => Hint::Value(duplicate_opt_value(v)),
            Hint::Root(r) => Hint::Root(clone_bytes(r)),
            Hint::Proof(p) => Hint::Proof(clone_bytes(p)),
        }
    }
}

/// An ordered sequence of hints.  The host appends during a batch; a
/// verifier then pulls hints in exactly the order they were pushed.  One
/// witness has a single producer and, per replay, a single consumer: the
/// read position advances only through [`Witness::get_hint`].
pub struct Witness {
    hints: Vec<Hint>,
    next: usize,
}

impl Witness {
    /// The recorded hints, in production order.
    pub closed spec fn hints(self) -> Seq<HintData> {
        self.hints@.map(|i: int, h: Hint| hint_model(h))
    }

    /// How many hints a consumer has already pulled.
    pub closed spec fn position(self) -> int {
        self.next as int
    }

    pub fn new() -> (r: Self)
        ensures
            r.hints() == Seq::<HintData>::empty(),
            r.position() == 0,
    {
        let r = Witness { hints: Vec::new(), next: 0 };
        proof {
            assert(r.hints() =~= Seq::<HintData>::empty());
        }
        r
    }

    /// Appends one hint; the read position does not move.
    pub fn add_hint(&mut self, hint: Hint)
        ensures
            final(self).hints() == old(self).hints().push(hint_model(hint)),
            final(self).position() == old(self).position(),
    {
        let ghost before = self.hints();
        self.hints.push(hint);
        proof {
            assert(self.hints() =~= before.push(hint_model(self.hints@.last())));
        }
    }

    /// Pulls the next hint, in the exact order hints were pushed.  Returns
    /// `None` once every recorded hint has been consumed.
    pub fn get_hint(&mut self) -> (r: Option<Hint>)
        ensures
            final(self).hints() == old(self).hints(),
            0 <= old(self).position(),
            if old(self).position() < old(self).hints().len() {
                &&& r is Some
                &&& hint_model(r->0) == old(self).hints()[old(self).position()]
                &&& final(self).position() == old(self).position() + 1
            } else {
                &&& r is None
                &&& final(self).position() == old(self).position()
            },
    {
        if self.next < self.hints.len() {
            let h = self.hints[self.next].duplicate();
            self.next = self.next + 1;
            Some(h)
        } else {
            None
        }
    }

    /// How many hints stand recorded.
    pub fn len(&self) -> (r: usize)
        ensures
            r == self.hints().len(),
    {
        self.hints.len()
    }
}

} // verus!
