//! A bounded cache of installed sources' plans, keyed by source identity, that drops the
//! least recently used entry when it is full.

use vstd::prelude::*;

use crate::text::str_eq;

verus! {

/// The entries' keys as texts.
pub open spec fn keys_of<T>(entries: Seq<(Seq<char>, T)>) -> Seq<Seq<char>> {
    entries.map_values(|e: (Seq<char>, T)| e.0)
}

/// Index of the first entry with key `key`, if any.
pub open spec fn key_index<T>(entries: Seq<(Seq<char>, T)>, key: Seq<char>) -> Option<int>
    decreases entries.len(),
{
    if entries.len() == 0 {
        None
    } else if entries[0].0 == key {
        Some(0)
    } else {
        match key_index(entries.drop_first(), key) {
            Some(i) => Some(i + 1),
            None => None,
        }
    }
}

/// The entries without the one keyed `key`, in the same order.
pub open spec fn without_key<T>(entries: Seq<(Seq<char>, T)>, key: Seq<char>) -> Seq<(Seq<char>, T)> {
    match key_index(entries, key) {
        Some(i) => entries.remove(i),
        None => entries,
    }
}

/// The entries after a lookup of `key`: a hit becomes the most recently used entry.
pub open spec fn touched<T>(entries: Seq<(Seq<char>, T)>, key: Seq<char>) -> Seq<(Seq<char>, T)> {
    match key_index(entries, key) {
        Some(i) => entries.remove(i).push(entries[i]),
        None => entries,
    }
}

/// The entries after storing `value` under `key` in a cache of `capacity` entries: any old
/// entry of the key goes, the new one becomes the most recently used, and the least
/// recently used entries go until the cache fits.
pub open spec fn inserted<T>(entries: Seq<(Seq<char>, T)>, capacity: nat, key: Seq<char>, value: T) -> Seq<
    (Seq<char>, T),
> {
    let full = without_key(entries, key).push((key, value));
    if full.len() > capacity {
        full.skip(full.len() - capacity)
    } else {
        full
    }
}

/// A least-recently-used cache from source identity to value.
pub struct PlanCache<T> {
    capacity: usize,
    entries: Vec<(String, T)>,
}

impl<T> PlanCache<T> {
    /// Entries from least to most recently used, keys as texts.
    pub closed spec fn entries_view(&self) -> Seq<(Seq<char>, T)> {
        self.entries@.map_values(|e: (String, T)| (e.0@, e.1))
    }

    /// Most entries the cache keeps.
    pub closed spec fn capacity_view(&self) -> nat {
        self.capacity as nat
    }

    /// Each key occurs once and the cache holds at most its capacity.
    #[verifier::type_invariant]
    closed spec fn well_formed(&self) -> bool {
        &&& self.entries@.len() <= self.capacity
        &&& keys_of(self.entries_view()).no_duplicates()
    }

    /// An empty cache that holds at most `capacity` entries.
    pub fn new(capacity: usize) -> (c: PlanCache<T>)
        ensures
            c.entries_view() == Seq::<(Seq<char>, T)>::empty(),
            c.capacity_view() == capacity,
    {
        let c = PlanCache { capacity, entries: Vec::new() };
        assert(c.entries_view() =~= Seq::<(Seq<char>, T)>::empty());
        assert(keys_of(c.entries_view()) =~= Seq::<Seq<char>>::empty());
        c
    }

    fn find(&self, key: &str) -> (r: Option<usize>)
        ensures
            match r {
                Some(i) => i < self.entries_view().len() && self.entries_view()[i as int].0 == key@,
                None => key_index(self.entries_view(), key@) is None,
            },
    {
        let mut i: usize = 0;
        while i < self.entries.len()
            invariant
                i <= self.entries@.len(),
                forall|j: int| 0 <= j < i ==> self.entries@[j].0@ != key@,
            decreases self.entries@.len() - i,
        {
            if str_eq(self.entries[i].0.as_str(), key) {
                return Some(i);
            }
            i = i + 1;
        }
        proof {
            assert forall|j: int| 0 <= j < self.entries_view().len() implies self.entries_view()[j].0 != key@ by {
                assert(self.entries_view()[j].0 == self.entries@[j].0@);
            }
            lemma_key_index_none(self.entries_view(), key@);
        }
        None
    }

    /// Looks up `key`; a hit becomes the most recently used entry.
    pub fn get(&mut self, key: &str) -> (r: Option<&T>)
        ensures
            final(self).entries_view() == touched(old(self).entries_view(), key@),
            final(self).capacity_view() == old(self).capacity_view(),
            keys_of(final(self).entries_view()).no_duplicates(),
            final(self).entries_view().len() <= final(self).capacity_view(),
            match key_index(old(self).entries_view(), key@) {
                Some(i) => r == Some(&old(self).entries_view()[i].1),
                None => r is None,
            },
    {
        proof {
            use_type_invariant(&*self);
        }
        let ghost before = self.entries_view();
        match self.find(key) {
            None => {
                proof {
                    use_type_invariant(&*self);
                }
                None
            },
            Some(i) => {
                proof {
                    lemma_key_index_unique(before, key@, i as int);
                }
                let mut entries: Vec<(String, T)> = Vec::new();
                std::mem::swap(&mut entries, &mut self.entries);
                let ghost raw = entries@;
                let hit = entries.remove(i);
                entries.push(hit);
                proof {
                    let now = entries@.map_values(|e: (String, T)| (e.0@, e.1));
                    assert(now =~= before.remove(i as int).push(before[i as int]));
                    lemma_move_to_back_keeps_distinct(before, i as int);
                    assert(keys_of(now) == keys_of(before.remove(i as int).push(before[i as int])));
                }
                self.entries = entries;
                proof {
                    use_type_invariant(&*self);
                }
                let n = self.entries.len();
                Some(&self.entries[n - 1].1)
            },
        }
    }

    /// Stores `value` under `key` as the most recently used entry, replacing any old value,
    /// then drops least recently used entries until the cache fits its capacity.
    pub fn insert(&mut self, key: String, value: T)
        ensures
            final(self).entries_view() == inserted(
                old(self).entries_view(),
                old(self).capacity_view(),
                key@,
                value,
            ),
            final(self).capacity_view() == old(self).capacity_view(),
            keys_of(final(self).entries_view()).no_duplicates(),
            final(self).entries_view().len() <= final(self).capacity_view(),
    {
        proof {
            use_type_invariant(&*self);
        }
        let ghost before = self.entries_view();
        let found = self.find(key.as_str());
        let mut entries: Vec<(String, T)> = Vec::new();
        std::mem::swap(&mut entries, &mut self.entries);
        let ghost key_view = key@;
        match found {
            Some(i) => {
                proof {
                    lemma_key_index_unique(before, key@, i as int);
                }
                let _ = entries.remove(i);
            },
            None => {},
        }
        proof {
            assert(entries@.map_values(|e: (String, T)| (e.0@, e.1)) =~= without_key(before, key_view));
            lemma_without_key_fresh(before, key_view, value);
        }
        entries.push((key, value));
        let ghost full = without_key(before, key_view).push((key_view, value));
        proof {
            assert(entries@.map_values(|e: (String, T)| (e.0@, e.1)) =~= full);
            assert forall|k: int| 0 <= k < entries@.len() implies (#[trigger] entries@[k]).0@ == full[k + 0].0
                && entries@[k].1 == full[k + 0].1 by {
                assert(entries@.map_values(|e: (String, T)| (e.0@, e.1))[k] == full[k]);
            }
        }
        let cap = self.capacity;
        let ghost mut dropped: int = 0;
        while entries.len() > cap
            invariant
                0 <= dropped <= full.len(),
                entries@.len() == full.len() - dropped,
                forall|k: int| 0 <= k < entries@.len() ==> (#[trigger] entries@[k]).0@ == full[k + dropped].0
                    && entries@[k].1 == full[k + dropped].1,
                dropped > 0 ==> full.len() - dropped >= cap,
            decreases entries@.len(),
        {
            let ghost prev = entries@;
            let _ = entries.remove(0);
            proof {
                assert forall|k: int| 0 <= k < entries@.len() implies (#[trigger] entries@[k]).0@ == full[k + dropped
                    + 1].0 && entries@[k].1 == full[k + dropped + 1].1 by {
                    assert(entries@[k] == prev[k + 1]);
                }
                dropped = dropped + 1;
            }
        }
        proof {
            assert(entries@.map_values(|e: (String, T)| (e.0@, e.1)) =~= full.skip(dropped));
            lemma_skip_keeps_distinct(full, dropped);
            if full.len() > cap {
                assert(dropped == full.len() - cap);
            }
        }
        self.entries = entries;
        proof {
            use_type_invariant(&*self);
        }
    }
}

/// A cache never holds more entries than its capacity after an insert.
pub proof fn law_insert_fits_capacity<T>(entries: Seq<(Seq<char>, T)>, capacity: nat, key: Seq<char>, value: T)
    ensures
        inserted(entries, capacity, key, value).len() <= capacity,
{
}

/// What is stored is read back: right after storing `value` under `key` in a cache that
/// can hold an entry, a lookup of `key` finds `value`, and it is the most recently used
/// entry.
pub proof fn law_lookup_after_insert<T>(entries: Seq<(Seq<char>, T)>, capacity: nat, key: Seq<char>, value: T)
    requires
        keys_of(entries).no_duplicates(),
        capacity >= 1,
    ensures
        ({
            let after = inserted(entries, capacity, key, value);
            &&& key_index(after, key) == Some(after.len() - 1)
            &&& after[after.len() - 1].1 == value
            &&& keys_of(after).no_duplicates()
        }),
{
    let full = without_key(entries, key).push((key, value));
    lemma_without_key_fresh(entries, key, value);
    let after = inserted(entries, capacity, key, value);
    let d = if full.len() > capacity { full.len() - capacity } else { 0 };
    assert(after =~= full.skip(d));
    lemma_skip_keeps_distinct(full, d);
    assert(after[after.len() - 1] == (key, value));
    lemma_key_index_unique(after, key, after.len() - 1);
}

/// A full cache makes room for a new key by dropping its least recently used entry only.
pub proof fn law_full_cache_drops_least_recent<T>(entries: Seq<(Seq<char>, T)>, capacity: nat, key: Seq<char>, value: T)
    requires
        entries.len() == capacity,
        capacity >= 1,
        forall|j: int| 0 <= j < entries.len() ==> entries[j].0 != key,
    ensures
        inserted(entries, capacity, key, value) == entries.drop_first().push((key, value)),
{
    lemma_key_index_none(entries, key);
    let full = entries.push((key, value));
    assert(without_key(entries, key) == entries);
    assert(full.skip(1) =~= entries.drop_first().push((key, value)));
}

proof fn lemma_key_index_unique<T>(s: Seq<(Seq<char>, T)>, key: Seq<char>, at: int)
    requires
        keys_of(s).no_duplicates(),
        0 <= at < s.len(),
        s[at].0 == key,
    ensures
        key_index(s, key) == Some(at),
    decreases s.len(),
{
    if at > 0 {
        assert(keys_of(s)[0] == s[0].0);
        assert(keys_of(s)[at] == s[at].0);
        let t = s.drop_first();
        assert(keys_of(t).no_duplicates()) by {
            assert forall|p: int, q: int| 0 <= p < q < keys_of(t).len() implies keys_of(t)[p] != keys_of(t)[q] by {
                assert(keys_of(t)[p] == keys_of(s)[p + 1]);
                assert(keys_of(t)[q] == keys_of(s)[q + 1]);
            }
        }
        lemma_key_index_unique(t, key, at - 1);
    }
}

proof fn lemma_key_index_found<T>(s: Seq<(Seq<char>, T)>, key: Seq<char>)
    ensures
        key_index(s, key) matches Some(i) ==> 0 <= i < s.len() && s[i].0 == key,
        key_index(s, key) is None ==> forall|j: int| 0 <= j < s.len() ==> s[j].0 != key,
    decreases s.len(),
{
    if s.len() > 0 {
        let t = s.drop_first();
        lemma_key_index_found(t, key);
        assert forall|j: int| 0 <= j < t.len() implies t[j] == s[j + 1] by {}
        if key_index(s, key) is None {
            assert forall|j: int| 0 <= j < s.len() implies s[j].0 != key by {
                if j > 0 {
                    assert(t[j - 1] == s[j]);
                }
            }
        }
    }
}

proof fn lemma_key_index_none<T>(s: Seq<(Seq<char>, T)>, key: Seq<char>)
    requires
        forall|j: int| 0 <= j < s.len() ==> s[j].0 != key,
    ensures
        key_index(s, key) is None,
    decreases s.len(),
{
    if s.len() > 0 {
        let t = s.drop_first();
        assert forall|j: int| 0 <= j < t.len() implies t[j].0 != key by {
            assert(t[j] == s[j + 1]);
        }
        lemma_key_index_none(t, key);
    }
}

proof fn lemma_move_to_back_keeps_distinct<T>(s: Seq<(Seq<char>, T)>, i: int)
    requires
        keys_of(s).no_duplicates(),
        0 <= i < s.len(),
    ensures
        keys_of(s.remove(i).push(s[i])).no_duplicates(),
{
    let t = s.remove(i).push(s[i]);
    let kt = keys_of(t);
    assert forall|p: int, q: int| 0 <= p < q < kt.len() implies kt[p] != kt[q] by {
        let op = if p < i { p } else { p + 1 };
        let oq = if q == kt.len() - 1 { i } else if q < i { q } else { q + 1 };
        assert(kt[p] == keys_of(s)[op]);
        assert(kt[q] == keys_of(s)[oq]);
    }
}

proof fn lemma_without_key_fresh<T>(s: Seq<(Seq<char>, T)>, key: Seq<char>, value: T)
    requires
        keys_of(s).no_duplicates(),
    ensures
        keys_of(without_key(s, key).push((key, value))).no_duplicates(),
{
    let w = without_key(s, key);
    let kw = keys_of(w.push((key, value)));
    lemma_key_index_found(s, key);
    match key_index(s, key) {
        Some(i) => {
            assert(s[i].0 == key);
            assert forall|p: int, q: int| 0 <= p < q < kw.len() implies kw[p] != kw[q] by {
                let op = if p < i { p } else { p + 1 };
                assert(kw[p] == keys_of(s)[op]);
                if q == kw.len() - 1 {
                    assert(kw[q] == key);
                    assert(keys_of(s)[i] == key);
                } else {
                    let oq = if q < i { q } else { q + 1 };
                    assert(kw[q] == keys_of(s)[oq]);
                }
            }
        },
        None => {
            assert forall|p: int, q: int| 0 <= p < q < kw.len() implies kw[p] != kw[q] by {
                assert(kw[p] == keys_of(s)[p]);
                if q == kw.len() - 1 {
                    assert(s[p].0 != key);
                } else {
                    assert(kw[q] == keys_of(s)[q]);
                }
            }
        },
    }
}

proof fn lemma_skip_keeps_distinct<T>(s: Seq<(Seq<char>, T)>, d: int)
    requires
        keys_of(s).no_duplicates(),
        0 <= d <= s.len(),
    ensures
        keys_of(s.skip(d)).no_duplicates(),
{
    let k = keys_of(s.skip(d));
    assert forall|p: int, q: int| 0 <= p < q < k.len() implies k[p] != k[q] by {
        assert(k[p] == keys_of(s)[p + d]);
        assert(k[q] == keys_of(s)[q + d]);
    }
}

} // verus!
