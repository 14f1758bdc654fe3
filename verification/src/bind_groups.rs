//! A cache of bind groups keyed by a hash of the resources they bind, kept
//! in least-recently-used order with the `lru` crate. The bind groups stay
//! with the caller, in a list; the cache maps a key to the index of its
//! bind group in that list.
use std::num::NonZeroUsize;

use lru::LruCache;
use vstd::prelude::*;

verus! {

/// The cache type of `lru`, opaque to the proofs.
#[verifier::external_type_specification]
#[verifier::external_body]
#[verifier::reject_recursive_types(K)]
#[verifier::reject_recursive_types(V)]
#[verifier::reject_recursive_types(S)]
pub struct ExLruCache<K, V, S>(LruCache<K, V, S>);

/// The hasher an `LruCache` uses by default, opaque to the proofs.
#[verifier::external_type_specification]
#[verifier::external_body]
pub struct ExDefaultHasher(lru::DefaultHasher);

/// The entries of a cache, from key to value.
pub uninterp spec fn lru_entries(c: LruCache<u64, usize>) -> Map<u64, usize>;

/// The number of entries a cache was made to hold.
pub uninterp spec fn lru_cap(c: LruCache<u64, usize>) -> nat;

/// The keys of a cache from the most to the least recently used.
pub uninterp spec fn lru_order(c: LruCache<u64, usize>) -> Seq<u64>;

/// The facts every cache keeps: a positive capacity, finitely many entries,
/// at most its capacity, and each key once in the order of use.
pub open spec fn lru_wf(c: LruCache<u64, usize>) -> bool {
    &&& lru_cap(c) > 0
    &&& lru_entries(c).dom().finite()
    &&& lru_entries(c).len() <= lru_cap(c)
    &&& lru_order(c).no_duplicates()
    &&& lru_order(c).to_set() == lru_entries(c).dom()
}

/// `order` with `k` moved (or put) to the front.
pub open spec fn to_front(order: Seq<u64>, k: u64) -> Seq<u64> {
    seq![k] + order.filter(|x: u64| x != k)
}

/// `LruCache::new`: an empty cache that holds at most `cap` entries.
#[verifier::external_body]
fn lru_new(cap: usize) -> (cache: LruCache<u64, usize>)
    requires
        cap > 0,
    ensures
        lru_entries(cache).dom() == Set::<u64>::empty(),
        lru_order(cache) == Seq::<u64>::empty(),
        lru_cap(cache) == cap,
        lru_wf(cache),
{
    LruCache::new(NonZeroUsize::new(cap).unwrap())
}

/// `LruCache::get`: the value recorded for `k`, if any. The entries stay
/// as they are; a key found becomes the most recently used.
#[verifier::external_body]
fn lru_get(c: &mut LruCache<u64, usize>, k: u64) -> (r: Option<usize>)
    requires
        lru_wf(*old(c)),
    ensures
        r == (if lru_entries(*old(c)).contains_key(k) {
            Some(lru_entries(*old(c))[k])
        } else {
            None
        }),
        lru_entries(*final(c)) == lru_entries(*old(c)),
        lru_cap(*final(c)) == lru_cap(*old(c)),
        lru_order(*final(c)) == if lru_entries(*old(c)).contains_key(k) {
            to_front(lru_order(*old(c)), k)
        } else {
            lru_order(*old(c))
        },
        lru_wf(*final(c)),
{
    c.get(&k).copied()
}

/// `LruCache::push`: records `v` for `k`, which becomes the most recently
/// used key. An entry already there for `k` is replaced and returned;
/// otherwise, in a full cache, the least recently used entry is removed and
/// returned.
#[verifier::external_body]
fn lru_push(c: &mut LruCache<u64, usize>, k: u64, v: usize) -> (r: Option<(u64, usize)>)
    requires
        lru_wf(*old(c)),
    ensures
        lru_cap(*final(c)) == lru_cap(*old(c)),
        lru_wf(*final(c)),
        lru_entries(*old(c)).contains_key(k) ==> r == Some((k, lru_entries(*old(c))[k]))
            && lru_entries(*final(c)) == lru_entries(*old(c)).insert(k, v),
        !lru_entries(*old(c)).contains_key(k) && lru_entries(*old(c)).len() < lru_cap(*old(c)) ==> r
            is None && lru_entries(*final(c)) == lru_entries(*old(c)).insert(k, v),
        !lru_entries(*old(c)).contains_key(k) && lru_entries(*old(c)).len() >= lru_cap(*old(c)) ==> (
        r matches Some((k2, v2)) && k2 == lru_order(*old(c)).last() && k2 != k && lru_entries(
            *old(c),
        ).contains_key(k2) && lru_entries(*old(c))[k2] == v2 && lru_entries(*final(c)) == lru_entries(
            *old(c),
        ).remove(k2).insert(k, v)),
        lru_order(*final(c)) == if lru_entries(*old(c)).contains_key(k) {
            to_front(lru_order(*old(c)), k)
        } else if lru_entries(*old(c)).len() < lru_cap(*old(c)) {
            seq![k] + lru_order(*old(c))
        } else {
            seq![k] + lru_order(*old(c)).drop_last()
        },
{
    c.push(k, v)
}

/// A bind group recorded under a key is found again under it, whatever was
/// evicted to make room.
pub proof fn lemma_recorded_found(c: DynamicBindGroup, key: u64, index: usize)
    requires
        c.wf(),
    ensures
        c.recorded(key, index).contains_key(key),
        c.recorded(key, index)[key] == index,
{
}

/// What to do for a set of resources: use the bind group at `index`, or
/// create one and put it at `index`, dropping the one at `evicted` that the
/// cache let go to make room.
#[derive(Debug, PartialEq, Eq, Structural)]
pub enum BindGroupSlot {
    Cached(usize),
    Create { index: usize, evicted: Option<usize> },
}

/// The number of bind groups a cache keeps.
pub open spec fn cache_capacity() -> nat {
    16
}

/// Bind groups for one layout, found again by the key of the resources
/// they bind.
pub struct DynamicBindGroup {
    pub bind_group_cache: LruCache<u64, usize>,
}

impl View for DynamicBindGroup {
    type V = Map<u64, usize>;

    open spec fn view(&self) -> Map<u64, usize> {
        lru_entries(self.bind_group_cache)
    }
}

impl DynamicBindGroup {
    /// The cache's invariant: what every `LruCache` keeps, with the capacity
    /// it is made with.
    pub open spec fn wf(&self) -> bool {
        lru_wf(self.bind_group_cache) && lru_cap(self.bind_group_cache) == cache_capacity()
    }

    /// An empty cache of 16 bind groups.
    pub fn new() -> (r: Self)
        ensures
            r.wf(),
            r@ == Map::<u64, usize>::empty(),
            r.order() == Seq::<u64>::empty(),
    {
        let r = DynamicBindGroup { bind_group_cache: lru_new(16) };
        proof {
            assert(r@ =~= Map::<u64, usize>::empty());
        }
        r
    }

    /// The keys of the cached bind groups, from the most to the least
    /// recently used.
    pub open spec fn order(&self) -> Seq<u64> {
        lru_order(self.bind_group_cache)
    }

    /// The order of use after `key` is used: `key` first.
    pub open spec fn used(&self, key: u64) -> Seq<u64> {
        if self@.contains_key(key) {
            to_front(self.order(), key)
        } else if self@.len() < cache_capacity() {
            seq![key] + self.order()
        } else {
            seq![key] + self.order().drop_last()
        }
    }

    /// The entries after recording `index` under `key`: where `key` is new
    /// and the cache full, the least recently used entry leaves.
    pub open spec fn recorded(&self, key: u64, index: usize) -> Map<u64, usize> {
        if self@.contains_key(key) || self@.len() < cache_capacity() {
            self@.insert(key, index)
        } else {
            self@.remove(self.order().last()).insert(key, index)
        }
    }

    /// The index of the bind group that leaves the cache when `key` is
    /// recorded: the one replaced under `key`, or, where `key` is new and
    /// the cache full, the least recently used one.
    pub open spec fn leaving(&self, key: u64) -> Option<usize> {
        if self@.contains_key(key) {
            Some(self@[key])
        } else if self@.len() < cache_capacity() {
            None
        } else {
            Some(self@[self.order().last()])
        }
    }

    /// The index of the bind group cached under `key`, if any; a key found
    /// becomes the most recently used.
    pub fn get_bind_group(&mut self, key: u64) -> (r: Option<usize>)
        requires
            old(self).wf(),
        ensures
            final(self).wf(),
            final(self)@ == old(self)@,
            r == (if old(self)@.contains_key(key) {
                Some(old(self)@[key])
            } else {
                None
            }),
            final(self).order() == if old(self)@.contains_key(key) {
                to_front(old(self).order(), key)
            } else {
                old(self).order()
            },
    {
        lru_get(&mut self.bind_group_cache, key)
    }

    /// Records the bind group at `index` under `key`, which becomes the
    /// most recently used; returns the index of the bind group that leaves
    /// the cache, if one was replaced or evicted to make room.
    pub fn insert(&mut self, key: u64, index: usize) -> (evicted: Option<usize>)
        requires
            old(self).wf(),
        ensures
            final(self).wf(),
            final(self)@ == old(self).recorded(key, index),
            evicted == old(self).leaving(key),
            final(self).order() == old(self).used(key),
    {
        match lru_push(&mut self.bind_group_cache, key, index) {
            Some((k, v)) => Some(v),
            None => None,
        }
    }

    /// What to do for resources with key `key`: use the bind group cached
    /// under it, or, where there is none, create one at `next_index`, which
    /// the cache now records under `key` (the least recently used one
    /// leaving a full cache). Either way `key` becomes the most recently
    /// used.
    pub fn get_or_create_bind_group(&mut self, key: u64, next_index: usize) -> (r: BindGroupSlot)
        requires
            old(self).wf(),
        ensures
            final(self).wf(),
            r == if old(self)@.contains_key(key) {
                BindGroupSlot::Cached(old(self)@[key])
            } else {
                BindGroupSlot::Create { index: next_index, evicted: old(self).leaving(key) }
            },
            final(self)@ == if old(self)@.contains_key(key) {
                old(self)@
            } else {
                old(self).recorded(key, next_index)
            },
            final(self).order() == old(self).used(key),
    {
        match self.get_bind_group(key) {
            Some(i) => BindGroupSlot::Cached(i),
            None => {
                let evicted = self.insert(key, next_index);
                BindGroupSlot::Create { index: next_index, evicted }
            },
        }
    }
}

} // verus!
