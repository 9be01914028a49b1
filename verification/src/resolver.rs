//! Layered snapshot resolution: given a snapshot identifier and a key,
//! answer what the key resolved to in that snapshot's ancestry of in-flight,
//! uncommitted layers, or report that the read must fall through to durable
//! storage.

use vstd::prelude::*;
use crate::bytes_eq;
use crate::types::{SnapshotId, StorageKey, StorageValue};

verus! {

/// The writes one in-flight snapshot holds, together with its parent link.
/// A later binding of the same key overrides an earlier one.
pub struct SnapshotLayer {
    pub id: u64,
    pub parent: Option<u64>,
    pub writes: Vec<(Vec<u8>, StorageValue)>,
}

/// The value a layer's write list binds a key to: the last binding wins.
pub open spec fn layer_value(writes: Seq<(Seq<u8>, Seq<u8>)>, key: Seq<u8>) -> Option<Seq<u8>>
    decreases writes.len(),
{
    if writes.len() == 0 {
        None
    } else if writes.last().0 == key {
        Some(writes.last().1)
    } else {
        layer_value(writes.drop_last(), key)
    }
}

/// The abstract content of a layer's write list.
pub open spec fn layer_writes_model(w: Seq<(Vec<u8>, StorageValue)>) -> Seq<(Seq<u8>, Seq<u8>)> {
    w.map(|i: int, p: (Vec<u8>, StorageValue)| (p.0@, p.1@))
}

impl SnapshotLayer {
    /// A layer's parent always has a strictly smaller identifier, so every
    /// ancestry chain is finite.
    pub open spec fn wf(self) -> bool {
        match self.parent {
            Some(p) => p < self.id,
            None => true,
        }
    }

    pub open spec fn writes_view(self) -> Seq<(Seq<u8>, Seq<u8>)> {
        layer_writes_model(self.writes@)
    }

    pub fn new(id: u64, parent: Option<u64>) -> (r: Self)
        requires
            parent is Some ==> parent->0 < id,
        ensures
            r.id == id,
            r.parent == parent,
            r.writes_view() == Seq::<(Seq<u8>, Seq<u8>)>::empty(),
            r.wf(),
    {
        let r = SnapshotLayer { id, parent, writes: Vec::new() };
        proof {
            assert(r.writes_view() =~= Seq::<(Seq<u8>, Seq<u8>)>::empty());
        }
        r
    }

    /// Records a speculative write in this layer.
    pub fn add_write(&mut self, key: Vec<u8>, value: StorageValue)
        ensures
            final(self).writes_view() == old(self).writes_view().push((key@, value@)),
            final(self).id == old(self).id,
            final(self).parent == old(self).parent,
    {
        let ghost before = self.writes_view();
        self.writes.push((key, value));
        proof {
            assert(self.writes_view() =~= before.push((self.writes@.last().0@,
                self.writes@.last().1@)));
        }
    }

    /// Looks a key up in this layer alone.
    pub fn get_local(&self, key: &StorageKey) -> (r: Option<&StorageValue>)
        ensures
            match r {
                Some(v) => layer_value(self.writes_view(), key@) == Some(v@),
                None => layer_value(self.writes_view(), key@) is None,
            },
    {
        let mut i: usize = self.writes.len();
        proof {
            assert(self.writes_view().take(i as int) =~= self.writes_view());
        }
        while i > 0
            invariant
                i <= self.writes.len(),
                layer_value(self.writes_view(), key@) == layer_value(
                    self.writes_view().take(i as int),
                    key@,
                ),
            decreases i,
        {
            i = i - 1;
            let ghost pre = self.writes_view().take(i as int + 1);
            proof {
                assert(pre.last() == (self.writes@[i as int].0@, self.writes@[i as int].1@));
                assert(pre.drop_last() =~= self.writes_view().take(i as int));
            }
            if bytes_eq(&self.writes[i].0, key.as_bytes()) {
                return Some(&self.writes[i].1);
            }
        }
        proof {
            assert(self.writes_view().take(0) =~= Seq::<(Seq<u8>, Seq<u8>)>::empty());
        }
        None
    }
}

/// The set of in-flight snapshot layers, looked up by snapshot identifier.
/// When two layers carry the same identifier, the earliest recorded one
/// answers.
pub struct SnapshotLayers {
    pub layers: Vec<SnapshotLayer>,
}

/// The first layer in `layers` carrying identifier `id`.
pub open spec fn find_layer(layers: Seq<SnapshotLayer>, id: int) -> Option<SnapshotLayer>
    decreases layers.len(),
{
    if layers.len() == 0 {
        None
    } else if layers.first().id == id {
        Some(layers.first())
    } else {
        find_layer(layers.drop_first(), id)
    }
}

/// What a key resolves to in the ancestry of snapshot `id`: the nearest
/// layer of the chain that binds the key answers; a chain that ends without
/// a binding means the read falls through to durable storage.
pub open spec fn resolve(layers: Seq<SnapshotLayer>, id: int, key: Seq<u8>) -> Option<Seq<u8>>
    decreases id,
{
    match find_layer(layers, id) {
        None => None,
        Some(layer) => match layer_value(layer.writes_view(), key) {
            Some(v) => Some(v),
            None => match layer.parent {
                None => None,
                Some(p) => if 0 <= id && p < id {
                    resolve(layers, p as int, key)
                } else {
                    None
                },
            },
        },
    }
}

impl SnapshotLayers {
    /// Every layer's parent link points strictly downward.
    pub open spec fn wf(self) -> bool {
        forall|i: int| 0 <= i < self.layers@.len() ==> (#[trigger] self.layers@[i]).wf()
    }

    pub fn new() -> (r: Self)
        ensures
            r.layers@.len() == 0,
            r.wf(),
    {
        SnapshotLayers { layers: Vec::new() }
    }

    /// Adds an in-flight layer.
    pub fn add_layer(&mut self, layer: SnapshotLayer)
        requires
            layer.wf(),
        ensures
            final(self).layers@ == old(self).layers@.push(layer),
            old(self).wf() ==> final(self).wf(),
    {
        self.layers.push(layer);
    }

    fn find(&self, id: u64) -> (r: Option<&SnapshotLayer>)
        ensures
            match r {
                Some(l) => find_layer(self.layers@, id as int) == Some(*l),
                None => find_layer(self.layers@, id as int) is None,
            },
    {
        let mut i: usize = 0;
        proof {
            assert(self.layers@.skip(0) =~= self.layers@);
        }
        while i < self.layers.len()
            invariant
                i <= self.layers@.len(),
                find_layer(self.layers@, id as int) == find_layer(
                    self.layers@.skip(i as int),
                    id as int,
                ),
            decreases self.layers@.len() - i,
        {
            proof {
                assert(self.layers@.skip(i as int).first() == self.layers@[i as int]);
                assert(self.layers@.skip(i as int).drop_first() =~= self.layers@.skip(
                    i as int + 1,
                ));
            }
            if self.layers[i].id == id {
                return Some(&self.layers[i]);
            }
            i = i + 1;
        }
        None
    }

    /// The most recent speculative value written for `key` in the ancestry
    /// chain of snapshot `id`, or `None`, meaning "fall through to durable
    /// storage".
    pub fn fetch_value(&self, id: SnapshotId, key: &StorageKey) -> (r: Option<StorageValue>)
        requires
            self.wf(),
        ensures
            match r {
                Some(v) => resolve(self.layers@, id.id as int, key@) == Some(v@),
                None => resolve(self.layers@, id.id as int, key@) is None,
            },
    {
        let mut current: u64 = id.id;
        loop
            invariant
                self.wf(),
                resolve(self.layers@, id.id as int, key@) == resolve(
                    self.layers@,
                    current as int,
                    key@,
                ),
            decreases current,
        {
            match self.find(current) {
                None => {
                    return None;
                },
                Some(layer) => {
                    match layer.get_local(key) {
                        Some(v) => {
                            return Some(v.duplicate());
                        },
                        None => {
                            proof {
                                lemma_find_layer_wf(self.layers@, current as int, *self);
                                assert(find_layer(self.layers@, current as int) == Some(*layer));
                            }
                            match layer.parent {
                                None => {
                                    assert(resolve(self.layers@, current as int, key@) is None);
                                    return None;
                                },
                                Some(p) => {
                                    proof {
                                        assert((*layer).wf());
                                        assert(resolve(self.layers@, current as int, key@)
                                            == resolve(self.layers@, p as int, key@));
                                    }
                                    current = p;
                                },
                            }
                        },
                    }
                },
            }
        }
    }
}

/// The full snapshot-layer state a storage engine queries: one layer set
/// for merkleized state and one for the accessory side-store.  The engine
/// reaches it only through a read-only lock.
pub struct SnapshotManager {
    pub state: SnapshotLayers,
    pub accessory: SnapshotLayers,
}

impl SnapshotManager {
    pub open spec fn wf(self) -> bool {
        self.state.wf() && self.accessory.wf()
    }

    pub fn new() -> (r: Self)
        ensures
            r.wf(),
            r.state.layers@.len() == 0,
            r.accessory.layers@.len() == 0,
    {
        SnapshotManager { state: SnapshotLayers::new(), accessory: SnapshotLayers::new() }
    }

    /// The speculative value for `key` in the ancestry of snapshot `id`, or
    /// `None`, meaning "fall through to durable storage".
    pub fn fetch_value(&self, id: SnapshotId, key: &StorageKey) -> (r: Option<StorageValue>)
        requires
            self.wf(),
        ensures
            match r {
                Some(v) => resolve(self.state.layers@, id.id as int, key@) == Some(v@),
                None => resolve(self.state.layers@, id.id as int, key@) is None,
            },
    {
        self.state.fetch_value(id, key)
    }

    /// The accessory-side equivalent of [`SnapshotManager::fetch_value`].
    pub fn fetch_accessory_value(&self, id: SnapshotId, key: &StorageKey) -> (r: Option<
        StorageValue,
    >)
        requires
            self.wf(),
        ensures
            match r {
                Some(v) => resolve(self.accessory.layers@, id.id as int, key@) == Some(v@),
                None => resolve(self.accessory.layers@, id.id as int, key@) is None,
            },
    {
        self.accessory.fetch_value(id, key)
    }
}

/// A layer found in a well-formed layer set is itself well-formed.
proof fn lemma_find_layer_wf(layers: Seq<SnapshotLayer>, id: int, s: SnapshotLayers)
    requires
        s.wf(),
        s.layers@ == layers,
        find_layer(layers, id) is Some,
    ensures
        (find_layer(layers, id)->0).wf(),
        (find_layer(layers, id)->0).id == id,
{
    lemma_find_layer_member(layers, id);
    let l = find_layer(layers, id)->0;
    let i = choose|i: int| 0 <= i < layers.len() && layers[i] == l;
    assert(s.layers@[i].wf());
}

/// A found layer is a member of the sequence.
proof fn lemma_find_layer_member(layers: Seq<SnapshotLayer>, id: int)
    requires
        find_layer(layers, id) is Some,
    ensures
        exists|i: int| 0 <= i < layers.len() && layers[i] == find_layer(layers, id)->0,
        (find_layer(layers, id)->0).id == id,
    decreases layers.len(),
{
    if layers.len() == 0 {
    } else if layers.first().id == id {
        assert(layers[0] == find_layer(layers, id)->0);
    } else {
        lemma_find_layer_member(layers.drop_first(), id);
        let i = choose|i: int|
            0 <= i < layers.drop_first().len() && layers.drop_first()[i] == find_layer(
                layers.drop_first(),
                id,
            )->0;
        assert(layers[i + 1] == find_layer(layers, id)->0);
    }
}

} // verus!
