//! The latest values of each signal group, kept for streaming and for the
//! HTTP cache endpoint.

use crate::workers::http::{cache_age_ms, is_fresh};
use vstd::prelude::*;

verus! {

/// The latest values of one signal group: when they were read, how long
/// the read took, and whether it failed.
#[derive(Debug, Clone)]
pub struct DataCacheEntry<V> {
    pub values: V,
    pub timestamp_ms: u64,
    pub latency_us: u64,
    pub error: bool,
}

impl<V> DataCacheEntry<V> {
    pub fn new(values: V, timestamp_ms: u64, latency_us: u64, error: bool) -> (e: Self)
        ensures
            e.values == values,
            e.timestamp_ms == timestamp_ms,
            e.latency_us == latency_us,
            e.error == error,
    {
        DataCacheEntry { values, timestamp_ms, latency_us, error }
    }
}

/// The entry of the first pair of `s` from index `j` on whose key is `key`.
pub open spec fn lookup<E>(s: Seq<(String, E)>, key: Seq<char>, j: int) -> Option<E>
    decreases s.len() - j,
{
    if 0 <= j < s.len() {
        if s[j].0@ == key {
            Some(s[j].1)
        } else {
            lookup(s, key, j + 1)
        }
    } else {
        None
    }
}

pub(crate) proof fn lemma_lookup_same_from<E>(s: Seq<(String, E)>, t: Seq<(String, E)>, key: Seq<char>, j: int)
    requires
        0 <= j,
        s.len() == t.len(),
        forall|i: int| j <= i < s.len() ==> s[i] == t[i],
    ensures
        lookup(s, key, j) == lookup(t, key, j),
    decreases s.len() - j,
{
    if j < s.len() {
        lemma_lookup_same_from(s, t, key, j + 1);
    }
}

pub(crate) proof fn lemma_lookup_after_update<E>(s: Seq<(String, E)>, p: int, e: E, key: Seq<char>, j: int)
    requires
        0 <= j <= p < s.len(),
        forall|i: int| j <= i < p ==> s[i].0@ != s[p].0@,
    ensures
        lookup(s.update(p, (s[p].0, e)), key, j) == if key == s[p].0@ {
            Some(e)
        } else {
            lookup(s, key, j)
        },
    decreases p - j,
{
    let t = s.update(p, (s[p].0, e));
    if j < p {
        lemma_lookup_after_update(s, p, e, key, j + 1);
    } else {
        lemma_lookup_same_from(s, t, key, p + 1);
    }
}

pub(crate) proof fn lemma_lookup_after_push<E>(s: Seq<(String, E)>, k: String, e: E, key: Seq<char>, j: int)
    requires
        0 <= j <= s.len(),
        forall|i: int| j <= i < s.len() ==> s[i].0@ != k@,
    ensures
        lookup(s.push((k, e)), key, j) == if key == k@ {
            Some(e)
        } else {
            lookup(s, key, j)
        },
    decreases s.len() - j,
{
    let t = s.push((k, e));
    if j < s.len() {
        lemma_lookup_after_push(s, k, e, key, j + 1);
        assert(t[j] == s[j]);
    } else {
        assert(t[j] == (k, e));
        assert(lookup(t, key, j + 1) is None);
    }
}

/// The latest entry of each cache key.
pub struct DataCache<V> {
    entries: Vec<(String, DataCacheEntry<V>)>,
}

impl<V> DataCache<V> {
    /// The entry cached under `key`, if any.
    pub closed spec fn entry(self, key: Seq<char>) -> Option<DataCacheEntry<V>> {
        lookup(self.entries@, key, 0)
    }

    pub fn new() -> (c: Self)
        ensures
            forall|key: Seq<char>| c.entry(key) is None,
    {
        DataCache { entries: Vec::new() }
    }

    fn position(&self, key: &String) -> (r: Option<usize>)
        ensures
            match r {
                Some(p) => p < self.entries@.len() && self.entries@[p as int].0@ == key@ && forall|i: int|
                    0 <= i < p ==> self.entries@[i].0@ != key@,
                None => forall|i: int| 0 <= i < self.entries@.len() ==> self.entries@[i].0@ != key@,
            },
    {
        let mut i: usize = 0;
        while i < self.entries.len()
            invariant
                i <= self.entries@.len(),
                forall|q: int| 0 <= q < i ==> self.entries@[q].0@ != key@,
            decreases self.entries.len() - i,
        {
            if self.entries[i].0 == *key {
                return Some(i);
            }
            i = i + 1;
        }
        None
    }

    /// The entry cached under `key`, if any.
    pub fn get(&self, key: &String) -> (r: Option<&DataCacheEntry<V>>)
        ensures
            match self.entry(key@) {
                Some(e) => r == Some(&e),
                None => r is None,
            },
    {
        match self.position(key) {
            Some(p) => {
                proof {
                    lemma_lookup_prefix(self.entries@, key@, p as int, 0);
                }
                Some(&self.entries[p].1)
            },
            None => {
                proof {
                    lemma_lookup_absent(self.entries@, key@, 0);
                }
                None
            },
        }
    }

    /// Caches `entry` under `key`, replacing what was there; other keys keep
    /// their entries.
    pub fn set(&mut self, key: &String, entry: DataCacheEntry<V>)
        ensures
            final(self).entry(key@) == Some(entry),
            forall|k: Seq<char>| k != key@ ==> final(self).entry(k) == old(self).entry(k),
    {
        match self.position(key) {
            Some(p) => {
                let ghost s = self.entries@;
                let k = self.entries[p].0.clone();
                self.entries.set(p, (k, entry));
                proof {
                    assert(self.entries@ =~= s.update(p as int, (s[p as int].0, entry)));
                    assert forall|q: Seq<char>| true implies #[trigger] lookup(self.entries@, q, 0)
                        == if q == s[p as int].0@ {
                        Some(entry)
                    } else {
                        lookup(s, q, 0)
                    } by {
                        lemma_lookup_after_update(s, p as int, entry, q, 0);
                    }
                }
            },
            None => {
                let ghost s = self.entries@;
                let k = key.clone();
                self.entries.push((k, entry));
                proof {
                    assert forall|q: Seq<char>| true implies #[trigger] lookup(self.entries@, q, 0)
                        == if q == key@ {
                        Some(entry)
                    } else {
                        lookup(s, q, 0)
                    } by {
                        lemma_lookup_after_push(s, k, entry, q, 0);
                    }
                }
            },
        }
    }

    /// How old the entry under `key` is at `now_ms`, if there is one.
    pub fn get_age(&self, key: &String, now_ms: u64) -> (r: Option<u64>)
        ensures
            match self.entry(key@) {
                Some(e) => r == Some(cache_age_ms_spec(now_ms, e.timestamp_ms)),
                None => r is None,
            },
    {
        match self.get(key) {
            Some(e) => Some(cache_age_ms(now_ms, e.timestamp_ms)),
            None => None,
        }
    }

    /// Whether the entry under `key` is at most `ttl_ms` old at `now_ms`;
    /// false when there is none.
    pub fn is_fresh(&self, key: &String, ttl_ms: u64, now_ms: u64) -> (b: bool)
        ensures
            b == match self.entry(key@) {
                Some(e) => cache_age_ms_spec(now_ms, e.timestamp_ms) <= ttl_ms,
                None => false,
            },
    {
        match self.get_age(key, now_ms) {
            Some(age) => is_fresh(age, ttl_ms),
            None => false,
        }
    }
}

/// What a cached value's age is: zero when the clock went back.
pub open spec fn cache_age_ms_spec(now_ms: u64, timestamp_ms: u64) -> u64 {
    if now_ms >= timestamp_ms {
        (now_ms - timestamp_ms) as u64
    } else {
        0
    }
}

pub(crate) proof fn lemma_lookup_prefix<E>(s: Seq<(String, E)>, key: Seq<char>, p: int, j: int)
    requires
        0 <= j <= p < s.len(),
        s[p].0@ == key,
        forall|i: int| 0 <= i < p ==> s[i].0@ != key,
    ensures
        lookup(s, key, j) == Some(s[p].1),
    decreases p - j,
{
    if j < p {
        lemma_lookup_prefix(s, key, p, j + 1);
    }
}

pub(crate) proof fn lemma_lookup_absent<E>(s: Seq<(String, E)>, key: Seq<char>, j: int)
    requires
        0 <= j,
        forall|i: int| 0 <= i < s.len() ==> s[i].0@ != key,
    ensures
        lookup(s, key, j) is None,
    decreases s.len() - j,
{
    if j < s.len() {
        lemma_lookup_absent(s, key, j + 1);
    }
}

} // verus!
