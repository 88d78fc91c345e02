//! A bounded cache of handles keyed by the hash of what they were built
//! from, kept by an LRU cache; handles that the cache is about to drop are
//! put aside so that their owner can release them.
use vstd::prelude::*;
use std::hash::BuildHasherDefault;
use std::num::NonZeroUsize;
use fxhash::{FxBuildHasher, FxHasher};
use lru::LruCache;

verus! {

/// `lru::LruCache`, carried opaquely.
#[verifier::external_type_specification]
#[verifier::external_body]
#[verifier::reject_recursive_types(K)]
#[verifier::reject_recursive_types(V)]
#[verifier::reject_recursive_types(S)]
pub struct ExLruCache<K, V, S>(LruCache<K, V, S>);

/// `fxhash::FxHasher`, carried opaquely.
#[verifier::external_type_specification]
#[verifier::external_body]
pub struct ExFxHasher(FxHasher);

/// `std::hash::BuildHasherDefault`, carried opaquely.
#[verifier::external_type_specification]
#[verifier::external_body]
#[verifier::reject_recursive_types(H)]
pub struct ExBuildHasherDefault<H>(BuildHasherDefault<H>);

/// The entries of an LRU cache, least recently used first.
pub uninterp spec fn lru_entries(cache: LruCache<u64, u64, FxBuildHasher>) -> Seq<(u64, u64)>;

/// The number of entries the cache was made to hold at most.
pub uninterp spec fn lru_capacity(cache: LruCache<u64, u64, FxBuildHasher>) -> nat;

/// No key occurs twice among `entries`.
pub open spec fn distinct_keys(entries: Seq<(u64, u64)>) -> bool {
    forall|i: int, j: int| 0 <= i < j < entries.len() ==> entries[i].0 != entries[j].0
}

/// The position of `key` among `entries`.
pub open spec fn key_position(entries: Seq<(u64, u64)>, key: u64) -> int {
    choose|i: int| 0 <= i < entries.len() && entries[i].0 == key
}

/// Some entry has key `key`.
pub open spec fn has_key(entries: Seq<(u64, u64)>, key: u64) -> bool {
    exists|i: int| 0 <= i < entries.len() && entries[i].0 == key
}

/// A cache's entries are keyed uniquely and no more than it may hold, which
/// is at least one entry.
pub open spec fn lru_valid(cache: LruCache<u64, u64, FxBuildHasher>) -> bool {
    &&& distinct_keys(lru_entries(cache))
    &&& lru_entries(cache).len() <= lru_capacity(cache)
    &&& 1 <= lru_capacity(cache) <= usize::MAX
}

/// `LruCache::with_hasher` with an Fx hash builder: an empty cache that
/// holds at most `capacity` entries.
#[verifier::external_body]
fn lru_with_capacity(capacity: usize) -> (cache: LruCache<u64, u64, FxBuildHasher>)
    requires
        capacity > 0,
    ensures
        lru_entries(cache) == Seq::<(u64, u64)>::empty(),
        lru_capacity(cache) == capacity,
{
    LruCache::with_hasher(NonZeroUsize::new(capacity).unwrap(), FxBuildHasher::default())
}

/// `LruCache::get`: the value of `key`, if the cache has it, which then
/// becomes the most recently used entry.
#[verifier::external_body]
fn lru_get(cache: &mut LruCache<u64, u64, FxBuildHasher>, key: u64) -> (value: Option<u64>)
    requires
        lru_valid(*old(cache)),
    ensures
        lru_valid(*final(cache)),
        lru_capacity(*final(cache)) == lru_capacity(*old(cache)),
        has_key(lru_entries(*old(cache)), key) ==> ({
            let e = lru_entries(*old(cache));
            let i = key_position(e, key);
            &&& value == Some(e[i].1)
            &&& lru_entries(*final(cache)) == e.remove(i).push(e[i])
        }),
        !has_key(lru_entries(*old(cache)), key) ==> value is None && lru_entries(*final(cache)) == lru_entries(
            *old(cache),
        ),
{
    cache.get(&key).copied()
}

/// `LruCache::put`: `key` gets `value` and becomes the most recently used
/// entry; a new key takes the place of the least recently used entry where
/// the cache is full. Returns the value `key` had.
#[verifier::external_body]
fn lru_put(cache: &mut LruCache<u64, u64, FxBuildHasher>, key: u64, value: u64) -> (previous: Option<u64>)
    requires
        lru_valid(*old(cache)),
    ensures
        lru_valid(*final(cache)),
        lru_capacity(*final(cache)) == lru_capacity(*old(cache)),
        has_key(lru_entries(*old(cache)), key) ==> ({
            let e = lru_entries(*old(cache));
            let i = key_position(e, key);
            &&& previous == Some(e[i].1)
            &&& lru_entries(*final(cache)) == e.remove(i).push((key, value))
        }),
        !has_key(lru_entries(*old(cache)), key) ==> previous is None && lru_entries(*final(cache)) == (if lru_entries(
            *old(cache),
        ).len() == lru_capacity(*old(cache)) {
            lru_entries(*old(cache)).drop_first().push((key, value))
        } else {
            lru_entries(*old(cache)).push((key, value))
        }),
{
    cache.put(key, value)
}

/// `LruCache::len`: the number of entries.
#[verifier::external_body]
fn lru_len(cache: &LruCache<u64, u64, FxBuildHasher>) -> (n: usize)
    ensures
        n == lru_entries(*cache).len(),
{
    cache.len()
}

/// `LruCache::cap`: the number of entries it holds at most.
#[verifier::external_body]
fn lru_cap(cache: &LruCache<u64, u64, FxBuildHasher>) -> (n: usize)
    ensures
        n == lru_capacity(*cache),
{
    cache.cap().get()
}

/// `LruCache::peek_lru`: the value of the least recently used entry, if any;
/// the order of the entries stays as it is.
#[verifier::external_body]
fn lru_peek_lru_value(cache: &LruCache<u64, u64, FxBuildHasher>) -> (value: Option<u64>)
    ensures
        lru_entries(*cache).len() == 0 ==> value is None,
        lru_entries(*cache).len() > 0 ==> value == Some(lru_entries(*cache)[0].1),
{
    cache.peek_lru().map(|(_, v)| *v)
}

/// What a look-up found.
#[derive(Clone, Copy, Debug, PartialEq, Eq, Structural)]
pub enum CacheLookup {
    /// The key is cached with this value.
    Hit(u64),
    /// The key is not cached: build the value and insert it.
    Miss,
}

/// Values kept by key, at most `capacity` of them; on a miss in a full cache
/// the value about to be dropped is set aside in the unused list.
pub struct CacheMap {
    cache: LruCache<u64, u64, FxBuildHasher>,
    unused: Vec<u64>,
}

impl CacheMap {
    /// The cached entries, least recently used first.
    pub closed spec fn entries(&self) -> Seq<(u64, u64)> {
        lru_entries(self.cache)
    }

    /// The number of entries it holds at most.
    pub closed spec fn capacity(&self) -> nat {
        lru_capacity(self.cache)
    }

    /// The values set aside.
    pub closed spec fn unused_values(&self) -> Seq<u64> {
        self.unused@
    }

    pub closed spec fn wf(&self) -> bool {
        lru_valid(self.cache)
    }

    /// An empty cache for at most `capacity` values.
    pub fn new(capacity: usize) -> (c: Self)
        requires
            capacity > 0,
        ensures
            c.wf(),
            c.entries() == Seq::<(u64, u64)>::empty(),
            c.capacity() == capacity,
            c.unused_values() == Seq::<u64>::empty(),
    {
        CacheMap { cache: lru_with_capacity(capacity), unused: Vec::new() }
    }

    /// Looks `key` up. A hit makes the entry the most recently used one. A
    /// miss in a full cache sets the value of the least recently used entry
    /// aside, as the insert that follows will drop it.
    pub fn lookup(&mut self, key: u64) -> (r: CacheLookup)
        requires
            old(self).wf(),
        ensures
            final(self).wf(),
            final(self).capacity() == old(self).capacity(),
            has_key(old(self).entries(), key) ==> ({
                let e = old(self).entries();
                let i = key_position(e, key);
                &&& r == CacheLookup::Hit(e[i].1)
                &&& final(self).entries() == e.remove(i).push(e[i])
                &&& final(self).unused_values() == old(self).unused_values()
            }),
            !has_key(old(self).entries(), key) ==> r == CacheLookup::Miss && final(self).entries() == old(self).entries()
                && final(self).unused_values() == (if old(self).entries().len() == old(self).capacity() {
                old(self).unused_values().push(old(self).entries()[0].1)
            } else {
                old(self).unused_values()
            }),
    {
        match lru_get(&mut self.cache, key) {
            Some(value) => CacheLookup::Hit(value),
            None => {
                let will_evict = lru_len(&self.cache) == lru_cap(&self.cache);
                if will_evict {
                    match lru_peek_lru_value(&self.cache) {
                        Some(value) => {
                            self.unused.push(value);
                        },
                        None => {},
                    }
                }
                CacheLookup::Miss
            },
        }
    }

    /// Caches `value` for `key` as the most recently used entry; in a full
    /// cache a new key takes the place of the least recently used entry.
    pub fn insert(&mut self, key: u64, value: u64)
        requires
            old(self).wf(),
        ensures
            final(self).wf(),
            final(self).capacity() == old(self).capacity(),
            final(self).unused_values() == old(self).unused_values(),
            has_key(old(self).entries(), key) ==> final(self).entries() == old(self).entries().remove(
                key_position(old(self).entries(), key),
            ).push((key, value)),
            !has_key(old(self).entries(), key) ==> final(self).entries() == (if old(self).entries().len()
                == old(self).capacity() {
                old(self).entries().drop_first().push((key, value))
            } else {
                old(self).entries().push((key, value))
            }),
    {
        lru_put(&mut self.cache, key, value);
    }

    /// The values set aside, for their owner to release.
    pub fn unused(&mut self) -> (u: &mut Vec<u64>)
        ensures
            u@ == old(self).unused_values(),
            final(self).unused_values() == final(u)@,
            final(self).entries() == old(self).entries(),
            final(self).capacity() == old(self).capacity(),
            final(self).wf() == old(self).wf(),
    {
        &mut self.unused
    }
}

/// A cache in order has uniquely keyed entries, no more than its capacity,
/// which is at least one.
pub proof fn lemma_wf_entries(c: CacheMap)
    requires
        c.wf(),
    ensures
        distinct_keys(c.entries()),
        c.entries().len() <= c.capacity(),
        1 <= c.capacity(),
{
}

/// A key just inserted is found with the value inserted.
pub proof fn law_lookup_after_insert(before: Seq<(u64, u64)>, capacity: nat, key: u64, value: u64)
    requires
        distinct_keys(before),
        1 <= capacity,
        before.len() <= capacity,
    ensures
        ({
            let after = if has_key(before, key) {
                before.remove(key_position(before, key)).push((key, value))
            } else if before.len() == capacity {
                before.drop_first().push((key, value))
            } else {
                before.push((key, value))
            };
            has_key(after, key) && after[key_position(after, key)].1 == value && distinct_keys(after)
        }),
{
    let after = if has_key(before, key) {
        before.remove(key_position(before, key)).push((key, value))
    } else if before.len() == capacity {
        before.drop_first().push((key, value))
    } else {
        before.push((key, value))
    };
    let rest = after.drop_last();
    assert(after.last() == (key, value));
    assert(forall|i: int| 0 <= i < rest.len() ==> #[trigger] rest[i].0 != key) by {
        if has_key(before, key) {
            let p = key_position(before, key);
            assert forall|i: int| 0 <= i < rest.len() implies #[trigger] rest[i].0 != key by {
                if i < p {
                    assert(rest[i] == before[i]);
                } else {
                    assert(rest[i] == before[i + 1]);
                }
            }
        } else if before.len() == capacity {
            assert forall|i: int| 0 <= i < rest.len() implies #[trigger] rest[i].0 != key by {
                assert(rest[i] == before[i + 1]);
            }
        } else {
            assert forall|i: int| 0 <= i < rest.len() implies #[trigger] rest[i].0 != key by {
                assert(rest[i] == before[i]);
            }
        }
    }
    assert(distinct_keys(after)) by {
        assert forall|i: int, j: int| 0 <= i < j < after.len() implies after[i].0 != after[j].0 by {
            if j == after.len() - 1 {
                assert(after[i] == rest[i]);
            } else if has_key(before, key) {
                let p = key_position(before, key);
                let bi = if i < p { i } else { i + 1 };
                let bj = if j < p { j } else { j + 1 };
                assert(after[i] == before[bi] && after[j] == before[bj]);
            } else if before.len() == capacity {
                assert(after[i] == before[i + 1] && after[j] == before[j + 1]);
            } else {
                assert(after[i] == before[i] && after[j] == before[j]);
            }
        }
    }
    let n = after.len() - 1;
    assert(after[n].0 == key);
    assert(has_key(after, key));
    let q = key_position(after, key);
    if q != n {
        assert(after[q].0 == key);
        assert(rest[q].0 != key);
    }
}

} // verus!
