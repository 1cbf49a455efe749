//! Maps from string keys, kept sorted by key so that every map has exactly one
//! representation. The resolved secret map and the label map are such maps.

use vstd::prelude::*;
use crate::key_order::{
    compare_keys, key_lt, lemma_key_lt_asymmetric, lemma_key_lt_irreflexive,
    lemma_key_lt_transitive, KeyOrder,
};

verus! {

/// One entry of a sorted map.
#[derive(Clone, Debug)]
pub struct Entry<V> {
    pub key: String,
    pub value: V,
}

/// What an entry holds, as plain values.
pub open spec fn entry_pair<V: View>(e: Entry<V>) -> (Seq<char>, V::V) {
    (e.key@, e.value@)
}

/// What a list of entries holds, as plain values.
pub open spec fn entry_pairs<V: View>(s: Seq<Entry<V>>) -> Seq<(Seq<char>, V::V)> {
    s.map_values(|e: Entry<V>| entry_pair(e))
}

/// The keys rise strictly from left to right.
pub open spec fn pairs_increasing<T>(s: Seq<(Seq<char>, T)>) -> bool {
    forall|i: int, j: int| #![trigger s[i], s[j]] 0 <= i < j < s.len() ==> key_lt(s[i].0, s[j].0)
}

/// The map that results from inserting the pairs from left to right.
pub open spec fn pairs_map<T>(s: Seq<(Seq<char>, T)>) -> Map<Seq<char>, T>
    decreases s.len(),
{
    if s.len() == 0 {
        Map::empty()
    } else {
        pairs_map(s.drop_last()).insert(s.last().0, s.last().1)
    }
}

/// `s` is the sorted listing of `m`.
pub open spec fn is_listing<T>(s: Seq<(Seq<char>, T)>, m: Map<Seq<char>, T>) -> bool {
    pairs_increasing(s) && pairs_map(s) == m
}

/// The sorted listing of a map, where it has one.
pub open spec fn sorted_pairs<T>(m: Map<Seq<char>, T>) -> Seq<(Seq<char>, T)> {
    choose|s: Seq<(Seq<char>, T)>| is_listing(s, m)
}

/// A key is in the map of a list exactly if some pair of the list has it.
pub proof fn lemma_pairs_map_contains<T>(s: Seq<(Seq<char>, T)>, k: Seq<char>)
    ensures
        pairs_map(s).contains_key(k) <==> exists|i: int| 0 <= i < s.len() && (#[trigger] s[i]).0 == k,
    decreases s.len(),
{
    if s.len() > 0 {
        let d = s.drop_last();
        lemma_pairs_map_contains(d, k);
        if pairs_map(s).contains_key(k) {
            if k == s.last().0 {
                assert(s[s.len() - 1].0 == k);
            } else {
                let i = choose|i: int| 0 <= i < d.len() && (#[trigger] d[i]).0 == k;
                assert(s[i].0 == k);
            }
        }
        if exists|i: int| 0 <= i < s.len() && (#[trigger] s[i]).0 == k {
            let i = choose|i: int| 0 <= i < s.len() && (#[trigger] s[i]).0 == k;
            if i < s.len() - 1 {
                assert(d[i].0 == k);
            }
        }
    }
}

/// The map of a sorted list gives each key the value that stands beside it.
pub proof fn lemma_pairs_map_value<T>(s: Seq<(Seq<char>, T)>, i: int)
    requires
        pairs_increasing(s),
        0 <= i < s.len(),
    ensures
        pairs_map(s).contains_key(s[i].0),
        pairs_map(s)[s[i].0] == s[i].1,
    decreases s.len(),
{
    let d = s.drop_last();
    if i < s.len() - 1 {
        assert(key_lt(s[i].0, s[s.len() - 1].0));
        lemma_key_lt_irreflexive(s[i].0);
        assert forall|a: int, b: int| #![trigger d[a], d[b]] 0 <= a < b < d.len() implies key_lt(
            d[a].0,
            d[b].0,
        ) by {
            assert(d[a] == s[a] && d[b] == s[b]);
        }
        lemma_pairs_map_value(d, i);
        assert(d[i] == s[i]);
    }
}

/// A sorted list without its last pair is sorted, and its map lacks that pair's key.
pub proof fn lemma_drop_last_sorted<T>(s: Seq<(Seq<char>, T)>)
    requires
        pairs_increasing(s),
        s.len() > 0,
    ensures
        pairs_increasing(s.drop_last()),
        !pairs_map(s.drop_last()).contains_key(s.last().0),
        pairs_map(s.drop_last()) == pairs_map(s).remove(s.last().0),
{
    let d = s.drop_last();
    assert forall|a: int, b: int| #![trigger d[a], d[b]] 0 <= a < b < d.len() implies key_lt(
        d[a].0,
        d[b].0,
    ) by {
        assert(d[a] == s[a] && d[b] == s[b]);
    }
    lemma_pairs_map_contains(d, s.last().0);
    if pairs_map(d).contains_key(s.last().0) {
        let i = choose|i: int| 0 <= i < d.len() && (#[trigger] d[i]).0 == s.last().0;
        assert(d[i] == s[i]);
        assert(key_lt(s[i].0, s[s.len() - 1].0));
        lemma_key_lt_irreflexive(s[i].0);
    }
    assert(pairs_map(d) =~= pairs_map(s).remove(s.last().0));
}

/// The map of a sorted list is finite and has as many keys as the list has pairs.
pub proof fn lemma_pairs_map_len<T>(s: Seq<(Seq<char>, T)>)
    requires
        pairs_increasing(s),
    ensures
        pairs_map(s).dom().finite(),
        pairs_map(s).dom().len() == s.len(),
    decreases s.len(),
{
    if s.len() > 0 {
        lemma_drop_last_sorted(s);
        lemma_pairs_map_len(s.drop_last());
    }
}

/// A map has at most one sorted listing.
pub proof fn lemma_listing_unique<T>(s1: Seq<(Seq<char>, T)>, s2: Seq<(Seq<char>, T)>)
    requires
        pairs_increasing(s1),
        pairs_increasing(s2),
        pairs_map(s1) == pairs_map(s2),
    ensures
        s1 == s2,
    decreases s1.len(),
{
    lemma_pairs_map_len(s1);
    lemma_pairs_map_len(s2);
    if s1.len() > 0 {
        let n = s1.len() - 1;
        let k1 = s1[n].0;
        let k2 = s2[n].0;
        lemma_pairs_map_value(s1, n);
        lemma_pairs_map_value(s2, n);
        lemma_pairs_map_contains(s2, k1);
        lemma_pairs_map_contains(s1, k2);
        let j = choose|j: int| 0 <= j < s2.len() && (#[trigger] s2[j]).0 == k1;
        let i = choose|i: int| 0 <= i < s1.len() && (#[trigger] s1[i]).0 == k2;
        if j < n {
            assert(key_lt(s2[j].0, s2[n].0));
        }
        if i < n {
            assert(key_lt(s1[i].0, s1[n].0));
        }
        if k1 != k2 {
            lemma_key_lt_asymmetric(k1, k2);
        }
        assert(s1[n] == s2[n]);
        lemma_drop_last_sorted(s1);
        lemma_drop_last_sorted(s2);
        lemma_listing_unique(s1.drop_last(), s2.drop_last());
        assert(s1 =~= s1.drop_last().push(s1[n]));
        assert(s2 =~= s2.drop_last().push(s2[n]));
    } else {
        assert(s1 =~= s2);
    }
}

/// Putting a new key into its place in a sorted list inserts it into the map.
pub proof fn lemma_insert_at<T>(s: Seq<(Seq<char>, T)>, p: int, e: (Seq<char>, T))
    requires
        pairs_increasing(s),
        0 <= p <= s.len(),
        forall|i: int| 0 <= i < p ==> key_lt((#[trigger] s[i]).0, e.0),
        forall|i: int| p <= i < s.len() ==> key_lt(e.0, (#[trigger] s[i]).0),
    ensures
        pairs_increasing(s.insert(p, e)),
        pairs_map(s.insert(p, e)) == pairs_map(s).insert(e.0, e.1),
{
    let t = s.insert(p, e);
    assert forall|i: int, j: int| #![trigger t[i], t[j]] 0 <= i < j < t.len() implies key_lt(
        t[i].0,
        t[j].0,
    ) by {
        if i < p {
            assert(t[i] == s[i]);
        }
        if i > p {
            assert(t[i] == s[i - 1]);
        }
        if j < p {
            assert(t[j] == s[j]);
        }
        if j > p {
            assert(t[j] == s[j - 1]);
        }
    }
    let m = pairs_map(s).insert(e.0, e.1);
    assert forall|k: Seq<char>| #[trigger] pairs_map(t).contains_key(k) <==> m.contains_key(k) by {
        lemma_pairs_map_contains(t, k);
        lemma_pairs_map_contains(s, k);
        if pairs_map(t).contains_key(k) && k != e.0 {
            let i = choose|i: int| 0 <= i < t.len() && (#[trigger] t[i]).0 == k;
            if i < p {
                assert(s[i].0 == k);
            } else {
                assert(s[i - 1].0 == k);
            }
        }
        if pairs_map(s).contains_key(k) {
            let i = choose|i: int| 0 <= i < s.len() && (#[trigger] s[i]).0 == k;
            if i < p {
                assert(t[i].0 == k);
            } else {
                assert(t[i + 1].0 == k);
            }
        }
        if k == e.0 {
            assert(t[p].0 == k);
        }
    }
    assert forall|k: Seq<char>| #[trigger] m.contains_key(k) implies pairs_map(t)[k] == m[k] by {
        lemma_pairs_map_contains(s, k);
        if k == e.0 {
            lemma_pairs_map_value(t, p);
        } else {
            let i = choose|i: int| 0 <= i < s.len() && (#[trigger] s[i]).0 == k;
            lemma_pairs_map_value(s, i);
            if i < p {
                lemma_pairs_map_value(t, i);
            } else {
                lemma_pairs_map_value(t, i + 1);
            }
        }
    }
    assert(pairs_map(t) =~= m);
}

/// Replacing the value beside a key of a sorted list replaces it in the map.
pub proof fn lemma_replace_at<T>(s: Seq<(Seq<char>, T)>, p: int, e: (Seq<char>, T))
    requires
        pairs_increasing(s),
        0 <= p < s.len(),
        s[p].0 == e.0,
    ensures
        pairs_increasing(s.update(p, e)),
        pairs_map(s.update(p, e)) == pairs_map(s).insert(e.0, e.1),
{
    let t = s.update(p, e);
    assert forall|i: int, j: int| #![trigger t[i], t[j]] 0 <= i < j < t.len() implies key_lt(
        t[i].0,
        t[j].0,
    ) by {
        assert(t[i].0 == s[i].0 && t[j].0 == s[j].0);
    }
    let m = pairs_map(s).insert(e.0, e.1);
    assert forall|k: Seq<char>| #[trigger] pairs_map(t).contains_key(k) <==> m.contains_key(k) by {
        lemma_pairs_map_contains(t, k);
        lemma_pairs_map_contains(s, k);
        if pairs_map(t).contains_key(k) {
            let i = choose|i: int| 0 <= i < t.len() && (#[trigger] t[i]).0 == k;
            assert(s[i].0 == k);
        }
        if pairs_map(s).contains_key(k) {
            let i = choose|i: int| 0 <= i < s.len() && (#[trigger] s[i]).0 == k;
            assert(t[i].0 == k);
        }
        if k == e.0 {
            assert(t[p].0 == k);
        }
    }
    assert forall|k: Seq<char>| #[trigger] m.contains_key(k) implies pairs_map(t)[k] == m[k] by {
        lemma_pairs_map_contains(s, k);
        if k == e.0 {
            lemma_pairs_map_value(t, p);
        } else {
            let i = choose|i: int| 0 <= i < s.len() && (#[trigger] s[i]).0 == k;
            lemma_pairs_map_value(s, i);
            lemma_pairs_map_value(t, i);
        }
    }
    assert(pairs_map(t) =~= m);
}

/// No key occurs twice.
pub open spec fn keys_distinct<T>(s: Seq<(Seq<char>, T)>) -> bool {
    forall|i: int, j: int| #![trigger s[i], s[j]] 0 <= i < j < s.len() ==> s[i].0 != s[j].0
}

/// Each key of the map of a list stands in the list beside its value.
pub proof fn lemma_pairs_map_witness<T>(s: Seq<(Seq<char>, T)>, k: Seq<char>)
    requires
        pairs_map(s).contains_key(k),
    ensures
        exists|i: int| 0 <= i < s.len() && #[trigger] s[i] == (k, pairs_map(s)[k]),
    decreases s.len(),
{
    if s.len() > 0 {
        let d = s.drop_last();
        if k == s.last().0 {
            assert(s[s.len() - 1] == (k, pairs_map(s)[k]));
        } else {
            lemma_pairs_map_witness(d, k);
            let i = choose|i: int| 0 <= i < d.len() && #[trigger] d[i] == (k, pairs_map(d)[k]);
            assert(s[i] == (k, pairs_map(s)[k]));
        }
    }
}

/// Two lists of the same pairs, none of whose keys occurs twice in the first,
/// make the same map, in whatever order each holds them.
pub proof fn lemma_order_of_pairs<T>(a: Seq<(Seq<char>, T)>, b: Seq<(Seq<char>, T)>)
    requires
        keys_distinct(a),
        forall|p: (Seq<char>, T)| a.contains(p) <==> b.contains(p),
    ensures
        pairs_map(a) == pairs_map(b),
{
    assert forall|k: Seq<char>| #[trigger] pairs_map(a).contains_key(k) <==> pairs_map(b).contains_key(k) by {
        lemma_pairs_map_contains(a, k);
        lemma_pairs_map_contains(b, k);
        if pairs_map(a).contains_key(k) {
            let i = choose|i: int| 0 <= i < a.len() && (#[trigger] a[i]).0 == k;
            assert(a.contains(a[i]));
            let j = choose|j: int| 0 <= j < b.len() && b[j] == a[i];
            assert(b[j].0 == k);
        }
        if pairs_map(b).contains_key(k) {
            let j = choose|j: int| 0 <= j < b.len() && (#[trigger] b[j]).0 == k;
            assert(b.contains(b[j]));
            let i = choose|i: int| 0 <= i < a.len() && a[i] == b[j];
            assert(a[i].0 == k);
        }
    }
    assert forall|k: Seq<char>| #[trigger] pairs_map(a).contains_key(k) implies pairs_map(a)[k] == pairs_map(b)[k] by {
        lemma_pairs_map_witness(a, k);
        lemma_pairs_map_witness(b, k);
        let i = choose|i: int| 0 <= i < a.len() && #[trigger] a[i] == (k, pairs_map(a)[k]);
        let j = choose|j: int| 0 <= j < b.len() && #[trigger] b[j] == (k, pairs_map(b)[k]);
        assert(b.contains(b[j]));
        let i2 = choose|i2: int| 0 <= i2 < a.len() && a[i2] == b[j];
        if i2 < i {
            assert(a[i2].0 != a[i].0);
        }
        if i < i2 {
            assert(a[i].0 != a[i2].0);
        }
    }
    assert(pairs_map(a) =~= pairs_map(b));
}

/// The first pair of a sorted list is new to the map of the others.
pub proof fn lemma_first_pair<T>(s: Seq<(Seq<char>, T)>)
    requires
        pairs_increasing(s),
        s.len() > 0,
    ensures
        pairs_increasing(s.drop_first()),
        !pairs_map(s.drop_first()).contains_key(s[0].0),
        pairs_map(s) == pairs_map(s.drop_first()).insert(s[0].0, s[0].1),
{
    let d = s.drop_first();
    assert forall|a: int, b: int| #![trigger d[a], d[b]] 0 <= a < b < d.len() implies key_lt(
        d[a].0,
        d[b].0,
    ) by {
        assert(d[a] == s[a + 1] && d[b] == s[b + 1]);
    }
    assert forall|i: int| 0 <= i < d.len() implies key_lt(s[0].0, (#[trigger] d[i]).0) by {
        assert(d[i] == s[i + 1]);
    }
    lemma_pairs_map_contains(d, s[0].0);
    if pairs_map(d).contains_key(s[0].0) {
        let i = choose|i: int| 0 <= i < d.len() && (#[trigger] d[i]).0 == s[0].0;
        lemma_key_lt_irreflexive(s[0].0);
    }
    lemma_insert_at(d, 0, s[0]);
    assert(d.insert(0, s[0]) =~= s);
}

/// A mapping from string keys to values. No key occurs twice, and the entries
/// are kept in key order.
#[derive(Debug)]
pub struct SortedMap<V: View> {
    entries: Vec<Entry<V>>,
}

/// The resolved secret map: output key to secret bytes.
pub type SecretMap = SortedMap<Vec<u8>>;

/// The labels of a platform object.
pub type Labels = SortedMap<String>;

impl<V: View> View for SortedMap<V> {
    type V = Map<Seq<char>, V::V>;

    closed spec fn view(&self) -> Map<Seq<char>, V::V> {
        pairs_map(entry_pairs(self.entries@))
    }
}

impl<V: View> SortedMap<V> {
    #[verifier::type_invariant]
    spec fn sorted(self) -> bool {
        pairs_increasing(entry_pairs(self.entries@))
    }

    /// The pairs of the map in key order.
    pub closed spec fn pairs(&self) -> Seq<(Seq<char>, V::V)> {
        entry_pairs(self.entries@)
    }

    /// The empty map.
    pub fn new() -> (r: SortedMap<V>)
        ensures
            r@ == Map::<Seq<char>, V::V>::empty(),
            r.pairs() == Seq::<(Seq<char>, V::V)>::empty(),
    {
        let r = SortedMap { entries: Vec::new() };
        assert(r.pairs() =~= Seq::empty());
        r
    }

    /// The number of entries.
    pub fn len(&self) -> (n: usize)
        ensures
            self@.dom().finite(),
            n == self@.dom().len(),
            n == self.pairs().len(),
    {
        proof {
            use_type_invariant(self);
            lemma_pairs_map_len(self.pairs());
        }
        self.entries.len()
    }

    /// Whether the map has no entry.
    pub fn is_empty(&self) -> (b: bool)
        ensures
            b <==> self@ == Map::<Seq<char>, V::V>::empty(),
    {
        proof {
            use_type_invariant(self);
            lemma_pairs_map_len(self.pairs());
            if self.entries@.len() == 0 {
                assert(self@ =~= Map::empty());
            }
        }
        self.entries.len() == 0
    }

    /// The entries in key order. They list the map: sorted, each key once.
    pub fn entries(&self) -> (r: &Vec<Entry<V>>)
        ensures
            entry_pairs(r@) == self.pairs(),
            is_listing(self.pairs(), self@),
    {
        proof {
            use_type_invariant(self);
        }
        &self.entries
    }

    /// Where `key` stands or would stand, and whether it is there.
    fn position(&self, key: &str) -> (r: (usize, bool))
        ensures
            r.0 <= self.pairs().len(),
            forall|i: int| 0 <= i < r.0 ==> key_lt((#[trigger] self.pairs()[i]).0, key@),
            r.1 ==> r.0 < self.pairs().len() && self.pairs()[r.0 as int].0 == key@,
            !r.1 ==> forall|i: int|
                r.0 <= i < self.pairs().len() ==> key_lt(key@, (#[trigger] self.pairs()[i]).0),
    {
        proof {
            use_type_invariant(self);
        }
        let ghost s = self.pairs();
        let mut i: usize = 0;
        while i < self.entries.len()
            invariant
                i <= self.entries@.len(),
                s == entry_pairs(self.entries@),
                pairs_increasing(s),
                forall|j: int| 0 <= j < i ==> key_lt((#[trigger] s[j]).0, key@),
            decreases self.entries@.len() - i,
        {
            let order = compare_keys(self.entries[i].key.as_str(), key);
            assert(s[i as int].0 == self.entries@[i as int].key@);
            match order {
                KeyOrder::Before => {},
                KeyOrder::Same => {
                    return (i, true);
                },
                KeyOrder::After => {
                    proof {
                        assert forall|j: int| i <= j < s.len() implies key_lt(
                            key@,
                            (#[trigger] s[j]).0,
                        ) by {
                            if i < j {
                                assert(key_lt(s[i as int].0, s[j].0));
                                lemma_key_lt_transitive(key@, s[i as int].0, s[j].0);
                            }
                        }
                    }
                    return (i, false);
                },
            }
            i = i + 1;
        }
        (i, false)
    }

    /// Whether the map has an entry under `key`.
    pub fn contains_key(&self, key: &str) -> (b: bool)
        ensures
            b == self@.contains_key(key@),
    {
        let (i, found) = self.position(key);
        proof {
            use_type_invariant(self);
            self.lemma_position(key@, i as int, found);
        }
        found
    }

    /// The value under `key`, if there is one.
    pub fn get(&self, key: &str) -> (r: Option<&V>)
        ensures
            match r {
                Some(v) => self@.contains_key(key@) && v@ == self@[key@],
                None => !self@.contains_key(key@),
            },
    {
        let (i, found) = self.position(key);
        proof {
            use_type_invariant(self);
            self.lemma_position(key@, i as int, found);
        }
        if found {
            proof {
                lemma_pairs_map_value(self.pairs(), i as int);
            }
            Some(&self.entries[i].value)
        } else {
            None
        }
    }

    /// What a position of `key` says of the map.
    proof fn lemma_position(&self, key: Seq<char>, i: int, found: bool)
        requires
            pairs_increasing(self.pairs()),
            0 <= i <= self.pairs().len(),
            forall|j: int| 0 <= j < i ==> key_lt((#[trigger] self.pairs()[j]).0, key),
            found ==> i < self.pairs().len() && self.pairs()[i].0 == key,
            !found ==> forall|j: int|
                i <= j < self.pairs().len() ==> key_lt(key, (#[trigger] self.pairs()[j]).0),
        ensures
            found == self@.contains_key(key),
    {
        let s = self.pairs();
        lemma_pairs_map_contains(s, key);
        if found {
            assert(s[i].0 == key);
        } else if self@.contains_key(key) {
            let j = choose|j: int| 0 <= j < s.len() && (#[trigger] s[j]).0 == key;
            lemma_key_lt_irreflexive(key);
        }
    }

    /// Sets the value under `key`, replacing the one that was there.
    pub fn insert(&mut self, key: String, value: V)
        ensures
            final(self)@ == old(self)@.insert(key@, value@),
    {
        let (i, found) = self.position(key.as_str());
        proof {
            use_type_invariant(&*self);
        }
        let ghost s = self.pairs();
        let ghost e = (key@, value@);
        let mut entries: Vec<Entry<V>> = Vec::new();
        assert(entry_pairs(entries@) =~= Seq::empty());
        core::mem::swap(&mut self.entries, &mut entries);
        if found {
            entries.set(i, Entry { key, value });
            proof {
                lemma_replace_at(s, i as int, e);
                assert(entry_pairs(entries@) =~= s.update(i as int, e));
            }
        } else {
            entries.insert(i, Entry { key, value });
            proof {
                lemma_insert_at(s, i as int, e);
                assert(entry_pairs(entries@) =~= s.insert(i as int, e));
            }
        }
        core::mem::swap(&mut self.entries, &mut entries);
    }

    /// Sets the value under `key` unless the map already has one there.
    pub fn insert_if_absent(&mut self, key: String, value: V)
        ensures
            final(self)@ == if old(self)@.contains_key(key@) {
                old(self)@
            } else {
                old(self)@.insert(key@, value@)
            },
    {
        let (i, found) = self.position(key.as_str());
        proof {
            use_type_invariant(&*self);
            self.lemma_position(key@, i as int, found);
        }
        if !found {
            let ghost s = self.pairs();
            let ghost e = (key@, value@);
            let mut entries: Vec<Entry<V>> = Vec::new();
            assert(entry_pairs(entries@) =~= Seq::empty());
            core::mem::swap(&mut self.entries, &mut entries);
            entries.insert(i, Entry { key, value });
            proof {
                lemma_insert_at(s, i as int, e);
                assert(entry_pairs(entries@) =~= s.insert(i as int, e));
            }
            core::mem::swap(&mut self.entries, &mut entries);
        }
    }

    /// Takes over every entry of `other` whose key the map does not have yet.
    pub fn merge_under(&mut self, other: SortedMap<V>)
        ensures
            final(self)@ == other@.union_prefer_right(old(self)@),
    {
        proof {
            use_type_invariant(&other);
        }
        let ghost ours = self@;
        let ghost theirs = other.pairs();
        let SortedMap { entries: mut rest } = other;
        proof {
            assert(theirs.skip(theirs.len() as int) =~= Seq::empty());
            assert(self@ =~= pairs_map(theirs.skip(theirs.len() as int)).union_prefer_right(ours));
        }
        while rest.len() > 0
            invariant
                pairs_increasing(theirs),
                rest@.len() <= theirs.len(),
                entry_pairs(rest@) == theirs.take(rest@.len() as int),
                self@ == pairs_map(theirs.skip(rest@.len() as int)).union_prefer_right(ours),
            decreases rest@.len(),
        {
            let ghost n = rest@.len() as int;
            let ghost stack = rest@;
            let entry = rest.pop().unwrap();
            proof {
                let done = theirs.skip(n);
                let next = theirs.skip(n - 1);
                assert(entry_pair(entry) == entry_pairs(stack)[n - 1]);
                assert(entry_pair(entry) == theirs[n - 1]);
                assert(entry_pairs(rest@) =~= theirs.take(n - 1));
                assert forall|a: int, b: int| #![trigger next[a], next[b]]
                    0 <= a < b < next.len() implies key_lt(next[a].0, next[b].0) by {
                    assert(next[a] == theirs[a + n - 1] && next[b] == theirs[b + n - 1]);
                }
                lemma_first_pair(next);
                assert(next.drop_first() =~= done);
            }
            let Entry { key, value } = entry;
            self.insert_if_absent(key, value);
            proof {
                assert(self@ =~= pairs_map(theirs.skip(n - 1)).union_prefer_right(ours));
            }
        }
        proof {
            assert(theirs.skip(0) =~= theirs);
        }
    }
}

impl<V: View + Clone> Clone for SortedMap<V> {
    /// A map with the same keys, each beside a clone of its value.
    fn clone(&self) -> (r: Self) {
        proof {
            use_type_invariant(self);
        }
        let mut entries: Vec<Entry<V>> = Vec::new();
        let mut i: usize = 0;
        while i < self.entries.len()
            invariant
                i <= self.entries@.len(),
                entries@.len() == i,
                forall|j: int| 0 <= j < i ==> (#[trigger] entries@[j]).key@ == self.entries@[j].key@,
            decreases self.entries@.len() - i,
        {
            let key = self.entries[i].key.clone();
            let value = self.entries[i].value.clone();
            entries.push(Entry { key, value });
            i = i + 1;
        }
        proof {
            let s = entry_pairs(self.entries@);
            let t = entry_pairs(entries@);
            assert forall|a: int, b: int| #![trigger t[a], t[b]] 0 <= a < b < t.len() implies key_lt(
                t[a].0,
                t[b].0,
            ) by {
                assert(t[a].0 == entries@[a].key@ && t[b].0 == entries@[b].key@);
                assert(key_lt(s[a].0, s[b].0));
            }
        }
        SortedMap { entries }
    }
}

impl SortedMap<Vec<u8>> {
    /// A copy of the map.
    pub fn duplicate(&self) -> (r: SecretMap)
        ensures
            r@ == self@,
    {
        proof {
            use_type_invariant(self);
        }
        let mut entries: Vec<Entry<Vec<u8>>> = Vec::new();
        let mut i: usize = 0;
        while i < self.entries.len()
            invariant
                i <= self.entries@.len(),
                entry_pairs(entries@) == entry_pairs(self.entries@).take(i as int),
            decreases self.entries@.len() - i,
        {
            let key = self.entries[i].key.clone();
            let value = self.entries[i].value.clone();
            assert(value@ =~= self.entries@[i as int].value@);
            let ghost copied = entry_pairs(entries@);
            entries.push(Entry { key, value });
            assert(entry_pairs(entries@) =~= copied.push((key@, value@)));
            assert(entry_pairs(entries@) =~= entry_pairs(self.entries@).take(i + 1));
            i = i + 1;
        }
        assert(entry_pairs(entries@) =~= entry_pairs(self.entries@));
        SortedMap { entries }
    }
}

} // verus!
