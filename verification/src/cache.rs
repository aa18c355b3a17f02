//! The cache layer's decisions: the in-memory set of keys known to yield
//! empty bundles, and the lookup/store policy around it.
//!
//! A key present in the empty set means "serve the synthesized empty
//! body; do not touch the disk". Non-empty bundles go to the disk tier,
//! which the surrounding I/O code operates; this module decides, it does
//! not read or write files.

use vstd::prelude::*;

use crate::bytes::seq_contains;

verus! {

/// The process-local set of cache keys whose bundles are empty.
pub struct EmptyKeys {
    pub keys: Vec<Vec<u8>>,
}

impl View for EmptyKeys {
    type V = Set<Seq<u8>>;

    open spec fn view(&self) -> Set<Seq<u8>> {
        self.keys.deep_view().to_set()
    }
}

impl EmptyKeys {
    pub fn new() -> (r: EmptyKeys)
        ensures
            r@ == Set::<Seq<u8>>::empty(),
    {
        let r = EmptyKeys { keys: Vec::new() };
        proof {
            assert(r.keys.deep_view().len() == 0);
            assert(r@ =~= Set::<Seq<u8>>::empty());
        }
        r
    }

    /// Whether this key is known to yield an empty bundle.
    pub fn contains(&self, key: &Vec<u8>) -> (r: bool)
        ensures
            r == self@.contains(key@),
    {
        let r = crate::bytes::contains_bytes(&self.keys, key);
        proof {
            if seq_contains(self.keys.deep_view(), key@) {
                let i = choose|i: int|
                    0 <= i < self.keys.deep_view().len() && self.keys.deep_view()[i] =~= key@;
                assert(self.keys.deep_view().contains(key@));
            }
            if self@.contains(key@) {
                assert(self.keys.deep_view().contains(key@));
                let i = choose|i: int|
                    0 <= i < self.keys.deep_view().len() && self.keys.deep_view()[i] == key@;
                assert(seq_contains(self.keys.deep_view(), key@));
            }
        }
        r
    }

    /// Records that this key yields an empty bundle.
    pub fn insert(&mut self, key: Vec<u8>)
        ensures
            final(self)@ == old(self)@.insert(key@),
    {
        let ghost kv = key@;
        let ghost pre = self.keys.deep_view();
        if !self.contains(&key) {
            self.keys.push(key);
            proof {
                assert(self.keys.deep_view() =~~= pre.push(kv));
                assert forall|x: Seq<u8>| pre.push(kv).to_set().contains(x) implies pre.to_set()
                    .insert(kv).contains(x) by {
                    let i = choose|i: int| 0 <= i < pre.push(kv).len() && pre.push(kv)[i] == x;
                    if i < pre.len() {
                        assert(pre[i] == x);
                    }
                }
                assert forall|x: Seq<u8>| pre.to_set().insert(kv).contains(x) implies pre.push(
                    kv,
                ).to_set().contains(x) by {
                    if x == kv {
                        assert(pre.push(kv)[pre.len() as int] == x);
                    } else {
                        let i = choose|i: int| 0 <= i < pre.len() && pre[i] == x;
                        assert(pre.push(kv)[i] == x);
                    }
                }
                assert(self@ =~= old(self)@.insert(kv));
            }
        } else {
            proof {
                assert(pre.to_set().contains(kv)) by {
                    let i = choose|i: int| 0 <= i < pre.len() && pre[i] =~= kv;
                    assert(pre.contains(kv));
                }
                assert(self@ =~= old(self)@.insert(kv));
            }
        }
    }
}

/// What the lookup decides before any I/O happens.
#[derive(Clone, Copy, PartialEq, Eq, Structural, Debug)]
pub enum CacheLookup {
    /// The key is in the empty set: serve the synthesized empty body and
    /// read nothing from disk.
    HitEmpty,
    /// Unknown key: the caller may try the disk tier, and on a miss must
    /// generate.
    TryDisk,
}

/// Decides the lookup for a key: the empty set is authoritative.
pub fn cache_lookup(keys: &EmptyKeys, key: &Vec<u8>) -> (r: CacheLookup)
    ensures
        r == CacheLookup::HitEmpty <==> keys@.contains(key@),
        r == CacheLookup::HitEmpty || r == CacheLookup::TryDisk,
{
    if keys.contains(key) {
        CacheLookup::HitEmpty
    } else {
        CacheLookup::TryDisk
    }
}

/// What the store does after a response was composed.
#[derive(Clone, Copy, PartialEq, Eq, Structural, Debug)]
pub enum StoreAction {
    /// The bundle installed nothing: remember the key in memory, never
    /// write it to disk.
    MarkEmpty,
    /// A real bundle: persist it under `<key>.js` in the cache directory.
    WriteDisk,
}

/// Decides how to store a composed body, from the assembler's emptiness
/// flag.
pub fn store_action(installed_empty: bool) -> (r: StoreAction)
    ensures
        r == StoreAction::MarkEmpty <==> installed_empty,
        r == StoreAction::MarkEmpty || r == StoreAction::WriteDisk,
{
    if installed_empty {
        StoreAction::MarkEmpty
    } else {
        StoreAction::WriteDisk
    }
}

/// Serving the same empty-bundled request twice: once the first response
/// stored its key in the empty set, the second lookup hits the empty set,
/// so no disk or catalogue read happens on the second path.
pub proof fn lemma_empty_store_then_lookup(s: Set<Seq<u8>>, key: Seq<u8>)
    ensures
        s.insert(key).contains(key),
{
}

} // verus!
