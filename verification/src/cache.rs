//! The value cache: what a lookup brought back is kept for a fixed time, so
//! that a backend is not asked again before that time has passed. The cache
//! reads no clock: the caller says what time it is, in seconds.

use vstd::prelude::*;
use crate::backend::{Lookup, LookupView};

verus! {

/// For how many seconds a fetched value is served from the cache.
pub const CACHE_TTL_SECONDS: u64 = 60;

/// Whether what was stored at `stored_at` is still served at `now`.
pub open spec fn is_fresh(stored_at: u64, now: u64, lifespan: u64) -> bool {
    stored_at <= now && now - stored_at < lifespan
}

/// The value that a cache with the content `stored` serves for `key` at
/// `now`: the one stored under the key, while it is fresh.
pub open spec fn served<V>(
    stored: Map<LookupView, (V, u64)>,
    lifespan: u64,
    key: LookupView,
    now: u64,
) -> Option<V> {
    if stored.contains_key(key) && is_fresh(stored[key].1, now, lifespan) {
        Some(stored[key].0)
    } else {
        None
    }
}

/// A value that is stored at `stored_at` is served for its key from then on
/// until `lifespan` seconds have passed, and no longer.
pub proof fn lemma_served_while_fresh<V>(
    stored: Map<LookupView, (V, u64)>,
    lifespan: u64,
    key: LookupView,
    value: V,
    stored_at: u64,
    now: u64,
)
    ensures
        served(stored.insert(key, (value, stored_at)), lifespan, key, now) == if stored_at <= now
            && now < stored_at + lifespan {
            Some(value)
        } else {
            None
        },
{
}

/// A value that is fetched at `fetched_at` and stored for sixty seconds is
/// served at any two later times within those sixty seconds, so that nothing
/// is fetched for them, and is not served once sixty seconds have passed, so
/// that the next query fetches again.
pub proof fn lemma_cache_ttl<V>(
    stored: Map<LookupView, (V, u64)>,
    key: LookupView,
    value: V,
    fetched_at: u64,
    first: u64,
    second: u64,
    later: u64,
)
    requires
        fetched_at <= first <= second,
        second < fetched_at + CACHE_TTL_SECONDS,
        later >= fetched_at + CACHE_TTL_SECONDS,
    ensures
        served(stored.insert(key, (value, fetched_at)), CACHE_TTL_SECONDS, key, first) == Some(value),
        served(stored.insert(key, (value, fetched_at)), CACHE_TTL_SECONDS, key, second) == Some(
            value,
        ),
        served(stored.insert(key, (value, fetched_at)), CACHE_TTL_SECONDS, key, later) is None,
{
}

/// One stored value.
#[derive(Debug)]
pub struct CacheEntry<V> {
    key: Lookup,
    value: V,
    stored_at: u64,
}

/// A cache of fetched values by lookup.
#[derive(Debug)]
pub struct ValueCache<V> {
    entries: Vec<CacheEntry<V>>,
    lifespan: u64,
}

/// The place of the entry for `key` in a list of entries.
pub closed spec fn place_of<V>(entries: Seq<CacheEntry<V>>, key: LookupView) -> int {
    choose|i: int| 0 <= i < entries.len() && (#[trigger] entries[i]).key@ == key
}

/// Whether a list of entries has one for `key`.
pub closed spec fn has_entry<V>(entries: Seq<CacheEntry<V>>, key: LookupView) -> bool {
    exists|i: int| 0 <= i < entries.len() && (#[trigger] entries[i]).key@ == key
}

/// No lookup has two entries.
pub closed spec fn one_entry_each<V>(entries: Seq<CacheEntry<V>>) -> bool {
    forall|i: int, j: int|
        #![trigger entries[i], entries[j]]
        0 <= i < j < entries.len() ==> entries[i].key@ != entries[j].key@
}

/// What a list of entries stores: under each lookup the value and the time
/// at which it was stored.
pub closed spec fn stored_in<V>(entries: Seq<CacheEntry<V>>) -> Map<LookupView, (V, u64)> {
    Map::new(
        |key: LookupView| has_entry(entries, key),
        |key: LookupView|
            (entries[place_of(entries, key)].value, entries[place_of(entries, key)].stored_at),
    )
}

/// In a list without doubles, the entry at `i` is what is stored under its key.
proof fn lemma_entry_stored<V>(entries: Seq<CacheEntry<V>>, i: int)
    requires
        one_entry_each(entries),
        0 <= i < entries.len(),
    ensures
        stored_in(entries).contains_key(entries[i].key@),
        stored_in(entries)[entries[i].key@] == (entries[i].value, entries[i].stored_at),
{
    let key = entries[i].key@;
    assert(has_entry(entries, key));
    let p = place_of(entries, key);
    if p < i {
        assert(entries[p].key@ != entries[i].key@);
    }
    if i < p {
        assert(entries[i].key@ != entries[p].key@);
    }
}

impl<V> View for ValueCache<V> {
    type V = Map<LookupView, (V, u64)>;

    closed spec fn view(&self) -> Map<LookupView, (V, u64)> {
        stored_in(self.entries@)
    }
}

impl<V> ValueCache<V> {
    #[verifier::type_invariant]
    spec fn well_formed(self) -> bool {
        one_entry_each(self.entries@)
    }

    /// For how many seconds a stored value is served.
    pub closed spec fn lifespan(&self) -> u64 {
        self.lifespan
    }

    /// The value that the cache serves for `key` at `now`.
    pub open spec fn fresh_value(&self, key: LookupView, now: u64) -> Option<V> {
        served(self@, self.lifespan(), key, now)
    }

    /// An empty cache that serves each value for sixty seconds.
    pub fn new() -> (r: ValueCache<V>)
        ensures
            r@ == Map::<LookupView, (V, u64)>::empty(),
            r.lifespan() == CACHE_TTL_SECONDS,
    {
        ValueCache::with_lifespan(CACHE_TTL_SECONDS)
    }

    /// An empty cache that serves each value for `seconds` seconds.
    pub fn with_lifespan(seconds: u64) -> (r: ValueCache<V>)
        ensures
            r@ == Map::<LookupView, (V, u64)>::empty(),
            r.lifespan() == seconds,
    {
        let r = ValueCache { entries: Vec::new(), lifespan: seconds };
        assert(r@ =~= Map::empty());
        r
    }

    /// How many values are stored, fresh or not.
    pub fn cache_size(&self) -> (n: usize)
        ensures
            self@.dom().finite(),
            n == self@.dom().len(),
    {
        proof {
            use_type_invariant(self);
            lemma_stored_len(self.entries@);
        }
        self.entries.len()
    }

    /// Where the entry for `key` is, if there is one.
    fn find(&self, key: &Lookup) -> (r: Option<usize>)
        ensures
            match r {
                Some(i) => i < self.entries@.len() && self.entries@[i as int].key@ == key@,
                None => !self@.contains_key(key@),
            },
    {
        let mut i: usize = 0;
        while i < self.entries.len()
            invariant
                i <= self.entries@.len(),
                forall|j: int| 0 <= j < i ==> (#[trigger] self.entries@[j]).key@ != key@,
            decreases self.entries@.len() - i,
        {
            if self.entries[i].key.same(key) {
                return Some(i);
            }
            i = i + 1;
        }
        proof {
            if has_entry(self.entries@, key@) {
                let p = place_of(self.entries@, key@);
                assert(self.entries@[p].key@ != key@);
            }
        }
        None
    }

    /// Where the entry for `key` is, if there is one and it is fresh at `now`.
    fn find_fresh(&self, key: &Lookup, now: u64) -> (r: Option<usize>)
        ensures
            match r {
                Some(i) => i < self.entries@.len() && self.fresh_value(key@, now) == Some(
                    self.entries@[i as int].value,
                ),
                None => self.fresh_value(key@, now) is None,
            },
    {
        proof {
            use_type_invariant(self);
        }
        match self.find(key) {
            None => None,
            Some(i) => {
                proof {
                    lemma_entry_stored(self.entries@, i as int);
                }
                let stored_at = self.entries[i].stored_at;
                if stored_at <= now && now - stored_at < self.lifespan {
                    Some(i)
                } else {
                    None
                }
            },
        }
    }

    /// The value that the cache serves for `key` at `now`, if it serves one.
    pub fn cache_get(&self, key: &Lookup, now: u64) -> (r: Option<&V>)
        ensures
            match r {
                Some(v) => self.fresh_value(key@, now) == Some(*v),
                None => self.fresh_value(key@, now) is None,
            },
    {
        match self.find_fresh(key, now) {
            Some(i) => Some(&self.entries[i].value),
            None => None,
        }
    }

    /// Stores `value` under `key` as of `now`, in place of what was there.
    pub fn cache_set(&mut self, key: Lookup, value: V, now: u64)
        ensures
            final(self)@ == old(self)@.insert(key@, (value, now)),
            final(self).lifespan() == old(self).lifespan(),
    {
        let _ = self.store(key, value, now);
    }

    /// Stores `value` under `key` as of `now` and says where.
    fn store(&mut self, key: Lookup, value: V, now: u64) -> (i: usize)
        ensures
            final(self)@ == old(self)@.insert(key@, (value, now)),
            final(self).lifespan() == old(self).lifespan(),
            i < final(self).entries@.len(),
            final(self).entries@[i as int].value == value,
    {
        proof {
            use_type_invariant(&*self);
        }
        let found = self.find(&key);
        let ghost before = self.entries@;
        let ghost k = key@;
        let mut entries: Vec<CacheEntry<V>> = Vec::new();
        core::mem::swap(&mut self.entries, &mut entries);
        let entry = CacheEntry { key, value, stored_at: now };
        let i = match found {
            Some(i) => {
                entries.set(i, entry);
                i
            },
            None => {
                entries.push(entry);
                entries.len() - 1
            },
        };
        proof {
            lemma_stored_after_set(before, entries@, i as int, entry);
        }
        core::mem::swap(&mut self.entries, &mut entries);
        i
    }

    /// Takes away what is stored under `key`.
    pub fn cache_remove(&mut self, key: &Lookup)
        ensures
            final(self)@ == old(self)@.remove(key@),
            final(self).lifespan() == old(self).lifespan(),
    {
        proof {
            use_type_invariant(&*self);
        }
        match self.find(key) {
            None => {
                assert(self@ =~= self@.remove(key@));
            },
            Some(i) => {
                let ghost before = self.entries@;
                let mut entries: Vec<CacheEntry<V>> = Vec::new();
                core::mem::swap(&mut self.entries, &mut entries);
                let _ = entries.remove(i);
                proof {
                    lemma_stored_after_remove(before, i as int);
                }
                core::mem::swap(&mut self.entries, &mut entries);
            },
        }
    }

    /// The value for `key` at `now`: the one that the cache serves, else the
    /// one that `fetch_fn` brings, which is then stored as of `now`. Where
    /// the cache serves the value, it stays as it is. Where `fetch_fn` brings
    /// nothing, nothing is stored and what was stored under `key` is gone, so
    /// that the next call fetches again.
    pub fn get_or_fetch<F: FnOnce() -> Option<V>>(&mut self, key: Lookup, now: u64, fetch_fn: F) -> (r:
        Option<&V>)
        requires
            call_requires(fetch_fn, ()),
        ensures
            final(self).lifespan() == old(self).lifespan(),
            match old(self).fresh_value(key@, now) {
                Some(value) => r == Some(&value) && final(self)@ == old(self)@,
                None => exists|fetched: Option<V>|
                    call_ensures(fetch_fn, (), fetched) && match fetched {
                        Some(value) => r == Some(&value) && final(self)@ == old(self)@.insert(
                            key@,
                            (value, now),
                        ),
                        None => r is None && final(self)@ == old(self)@.remove(key@),
                    },
            },
    {
        match self.find_fresh(&key, now) {
            Some(i) => Some(&self.entries[i].value),
            None => {
                let fetched = fetch_fn();
                match fetched {
                    Some(value) => {
                        let i = self.store(key, value, now);
                        Some(&self.entries[i].value)
                    },
                    None => {
                        self.cache_remove(&key);
                        None
                    },
                }
            },
        }
    }
}

/// A list without doubles stores as many values as it has entries.
proof fn lemma_stored_len<V>(entries: Seq<CacheEntry<V>>)
    requires
        one_entry_each(entries),
    ensures
        stored_in(entries).dom().finite(),
        stored_in(entries).dom().len() == entries.len(),
    decreases entries.len(),
{
    if entries.len() == 0 {
        assert(stored_in(entries).dom() =~= Set::empty());
    } else {
        let rest = entries.drop_last();
        let last = entries.last();
        assert forall|i: int, j: int|
            #![trigger rest[i], rest[j]]
            0 <= i < j < rest.len() implies rest[i].key@ != rest[j].key@ by {
            assert(rest[i] == entries[i] && rest[j] == entries[j]);
        }
        lemma_stored_len(rest);
        assert(!has_entry(rest, last.key@)) by {
            if has_entry(rest, last.key@) {
                let p = place_of(rest, last.key@);
                assert(rest[p] == entries[p]);
                assert(entries[p].key@ != entries[entries.len() - 1].key@);
            }
        }
        assert(stored_in(entries).dom() =~= stored_in(rest).dom().insert(last.key@)) by {
            assert forall|k: LookupView| has_entry(entries, k) <==> has_entry(rest, k) || k
                == last.key@ by {
                if has_entry(entries, k) {
                    let p = place_of(entries, k);
                    if p < rest.len() {
                        assert(rest[p].key@ == k);
                    }
                }
                if has_entry(rest, k) {
                    let p = place_of(rest, k);
                    assert(entries[p].key@ == k);
                }
                if k == last.key@ {
                    assert(entries[entries.len() - 1].key@ == k);
                }
            }
        }
    }
}

/// Setting the entry for a lookup, at its place or as a new last entry,
/// stores its value under the lookup and leaves the rest.
proof fn lemma_stored_after_set<V>(
    before: Seq<CacheEntry<V>>,
    after: Seq<CacheEntry<V>>,
    i: int,
    entry: CacheEntry<V>,
)
    requires
        one_entry_each(before),
        0 <= i <= before.len(),
        i < before.len() ==> before[i].key@ == entry.key@ && after == before.update(i, entry),
        i == before.len() ==> !stored_in(before).contains_key(entry.key@) && after == before.push(
            entry,
        ),
    ensures
        one_entry_each(after),
        stored_in(after) == stored_in(before).insert(entry.key@, (entry.value, entry.stored_at)),
{
    assert forall|a: int, b: int|
        #![trigger after[a], after[b]]
        0 <= a < b < after.len() implies after[a].key@ != after[b].key@ by {
        if b < before.len() {
            assert(after[a].key@ == before[a].key@ && after[b].key@ == before[b].key@);
        } else {
            assert(after[a] == before[a]);
            if after[a].key@ == entry.key@ {
                assert(has_entry(before, entry.key@));
            }
        }
    }
    let target = stored_in(before).insert(entry.key@, (entry.value, entry.stored_at));
    assert forall|k: LookupView| #[trigger] stored_in(after).contains_key(k) <==> target.contains_key(k) by {
        if has_entry(after, k) {
            let p = place_of(after, k);
            if p < before.len() && p != i {
                assert(before[p].key@ == k);
            }
        }
        if has_entry(before, k) {
            let p = place_of(before, k);
            assert(after[p].key@ == k);
        }
        if k == entry.key@ {
            assert(after[i].key@ == k);
        }
    }
    assert forall|k: LookupView| #[trigger] target.contains_key(k) implies stored_in(after)[k] == target[k] by {
        if k == entry.key@ {
            lemma_entry_stored(after, i);
        } else {
            let p = place_of(before, k);
            assert(has_entry(before, k));
            lemma_entry_stored(before, p);
            assert(after[p] == before[p]);
            lemma_entry_stored(after, p);
        }
    }
    assert(stored_in(after) =~= target);
}

/// Taking an entry out of a list without doubles takes its lookup out of
/// what is stored and leaves the rest.
proof fn lemma_stored_after_remove<V>(before: Seq<CacheEntry<V>>, i: int)
    requires
        one_entry_each(before),
        0 <= i < before.len(),
    ensures
        one_entry_each(before.remove(i)),
        stored_in(before.remove(i)) == stored_in(before).remove(before[i].key@),
{
    let after = before.remove(i);
    let gone = before[i].key@;
    assert forall|a: int, b: int|
        #![trigger after[a], after[b]]
        0 <= a < b < after.len() implies after[a].key@ != after[b].key@ by {
        let a0 = if a < i { a } else { a + 1 };
        let b0 = if b < i { b } else { b + 1 };
        assert(after[a] == before[a0] && after[b] == before[b0]);
    }
    let target = stored_in(before).remove(gone);
    assert forall|k: LookupView| #[trigger] stored_in(after).contains_key(k) <==> target.contains_key(k) by {
        if has_entry(after, k) {
            let p = place_of(after, k);
            let origin = if p < i { p } else { p + 1 };
            assert(before[origin].key@ == k);
            if origin < i {
                assert(before[origin].key@ != before[i].key@);
            } else {
                assert(before[i].key@ != before[origin].key@);
            }
        }
        if has_entry(before, k) && k != gone {
            let p = place_of(before, k);
            let moved = if p < i { p } else { p - 1 };
            assert(after[moved].key@ == k);
        }
    }
    assert forall|k: LookupView| #[trigger] target.contains_key(k) implies stored_in(after)[k] == target[k] by {
        let p = place_of(before, k);
        assert(has_entry(before, k));
        lemma_entry_stored(before, p);
        let moved = if p < i { p } else { p - 1 };
        assert(after[moved] == before[p]);
        lemma_entry_stored(after, moved);
    }
    assert(stored_in(after) =~= target);
}

} // verus!
