//! The status of every registered device, by device id.

use crate::data_cache::{
    lemma_lookup_absent, lemma_lookup_after_push, lemma_lookup_after_update, lemma_lookup_prefix,
    lemma_lookup_same_from, lookup,
};
use crate::events::DeviceStatus;
use crate::config::Config;
use crate::workers::config_updater::{device_changes, ids_of, texts, ConfigUpdateSummary};
use std::time::Instant;
use vstd::prelude::*;

verus! {

/// The status of a device registered at `now`: not connected, no errors, no
/// reconnects.
pub open spec fn fresh_status(now: Instant) -> DeviceStatus {
    DeviceStatus { connected: false, last_communication: now, error_count: 0, reconnect_count: 0 }
}

proof fn lemma_lookup_none_from<E>(s: Seq<(String, E)>, key: Seq<char>, m: int)
    requires
        0 <= m,
        forall|i: int| m <= i < s.len() ==> s[i].0@ != key,
    ensures
        lookup(s, key, m) is None,
    decreases s.len() - m,
{
    if m < s.len() {
        lemma_lookup_none_from(s, key, m + 1);
    }
}

proof fn lemma_lookup_shifted<E>(s: Seq<(String, E)>, p: int, key: Seq<char>, m: int)
    requires
        0 <= p <= m < s.len(),
    ensures
        lookup(s.remove(p), key, m) == lookup(s, key, m + 1),
    decreases s.len() - m,
{
    let t = s.remove(p);
    if m + 1 < s.len() {
        assert(t[m] == s[m + 1]);
        lemma_lookup_shifted(s, p, key, m + 1);
    }
}

/// Removing the entry at `p` of entries with distinct keys forgets its key
/// and keeps every other key's entry.
proof fn lemma_lookup_after_remove<E>(s: Seq<(String, E)>, p: int, key: Seq<char>, j: int)
    requires
        0 <= j <= p < s.len(),
        forall|a: int, b: int| 0 <= a < b < s.len() ==> s[a].0@ != s[b].0@,
    ensures
        lookup(s.remove(p), key, j) == if key == s[p].0@ {
            None
        } else {
            lookup(s, key, j)
        },
    decreases p - j,
{
    let t = s.remove(p);
    if j < p {
        lemma_lookup_after_remove(s, p, key, j + 1);
        assert(t[j] == s[j]);
    } else {
        lemma_lookup_shifted(s, p, key, p);
        if key == s[p].0@ {
            lemma_lookup_none_from(s, key, p + 1);
        }
    }
}

/// The status of each registered device.
pub struct DeviceStates {
    entries: Vec<(String, DeviceStatus)>,
}

impl DeviceStates {
    #[verifier::type_invariant]
    spec fn wf(self) -> bool {
        forall|a: int, b: int| 0 <= a < b < self.entries@.len() ==> self.entries@[a].0@ != self.entries@[b].0@
    }

    /// The registered devices with their status, in the order registered.
    pub closed spec fn pairs(self) -> Seq<(String, DeviceStatus)> {
        self.entries@
    }

    /// The status of device `id`, if it is registered.
    pub open spec fn status(self, id: Seq<char>) -> Option<DeviceStatus> {
        lookup(self.pairs(), id, 0)
    }

    pub fn new() -> (t: Self)
        ensures
            forall|id: Seq<char>| t.status(id) is None,
    {
        DeviceStates { entries: Vec::new() }
    }

    fn position(&self, id: &String) -> (r: Option<usize>)
        ensures
            match r {
                Some(p) => p < self.entries@.len() && self.entries@[p as int].0@ == id@ && forall|i: int|
                    0 <= i < p ==> self.entries@[i].0@ != id@,
                None => forall|i: int| 0 <= i < self.entries@.len() ==> self.entries@[i].0@ != id@,
            },
    {
        let mut i: usize = 0;
        while i < self.entries.len()
            invariant
                i <= self.entries@.len(),
                forall|q: int| 0 <= q < i ==> self.entries@[q].0@ != id@,
            decreases self.entries.len() - i,
        {
            if self.entries[i].0 == *id {
                return Some(i);
            }
            i = i + 1;
        }
        None
    }

    /// The registered devices with their status, in the order registered.
    pub fn entries(&self) -> (r: &Vec<(String, DeviceStatus)>)
        ensures
            r@ == self.pairs(),
    {
        &self.entries
    }

    /// The status of device `id`, if it is registered.
    pub fn get(&self, id: &String) -> (r: Option<&DeviceStatus>)
        ensures
            match self.status(id@) {
                Some(s) => r == Some(&s),
                None => r is None,
            },
    {
        match self.position(id) {
            Some(p) => {
                proof {
                    lemma_lookup_prefix(self.entries@, id@, p as int, 0);
                }
                Some(&self.entries[p].1)
            },
            None => {
                proof {
                    lemma_lookup_absent(self.entries@, id@, 0);
                }
                None
            },
        }
    }

    /// Registers device `id` at `now` with a fresh status, replacing any
    /// status it had; other devices keep theirs.
    pub fn register(&mut self, id: &String, now: Instant)
        ensures
            final(self).status(id@) == Some(fresh_status(now)),
            forall|k: Seq<char>| k != id@ ==> final(self).status(k) == old(self).status(k),
    {
        proof {
            use_type_invariant(&*self);
        }
        let fresh = DeviceStatus::registered(now);
        let ghost s = self.entries@;
        let found = self.position(id);
        let mut entries: Vec<(String, DeviceStatus)> = Vec::new();
        std::mem::swap(&mut entries, &mut self.entries);
        match found {
            Some(p) => {
                let k = entries[p].0.clone();
                entries.set(p, (k, fresh));
                proof {
                    assert(entries@ =~= s.update(p as int, (s[p as int].0, fresh)));
                    assert forall|q: Seq<char>| true implies #[trigger] lookup(entries@, q, 0) == if q
                        == s[p as int].0@ {
                        Some(fresh)
                    } else {
                        lookup(s, q, 0)
                    } by {
                        lemma_lookup_after_update(s, p as int, fresh, q, 0);
                    }
                }
            },
            None => {
                let k = id.clone();
                entries.push((k, fresh));
                proof {
                    assert forall|q: Seq<char>| true implies #[trigger] lookup(entries@, q, 0) == if q
                        == id@ {
                        Some(fresh)
                    } else {
                        lookup(s, q, 0)
                    } by {
                        lemma_lookup_after_push(s, k, fresh, q, 0);
                    }
                }
            },
        }
        self.entries = entries;
    }

    /// Forgets device `id`; other devices keep their status.
    pub fn remove(&mut self, id: &String)
        ensures
            final(self).status(id@) is None,
            forall|k: Seq<char>| k != id@ ==> final(self).status(k) == old(self).status(k),
    {
        proof {
            use_type_invariant(&*self);
        }
        let ghost s = self.entries@;
        match self.position(id) {
            Some(p) => {
                let mut entries: Vec<(String, DeviceStatus)> = Vec::new();
                std::mem::swap(&mut entries, &mut self.entries);
                entries.remove(p);
                proof {
                    assert(entries@ =~= s.remove(p as int));
                    assert forall|q: Seq<char>| true implies #[trigger] lookup(entries@, q, 0) == if q
                        == s[p as int].0@ {
                        None
                    } else {
                        lookup(s, q, 0)
                    } by {
                        lemma_lookup_after_remove(s, p as int, q, 0);
                    }
                    assert forall|a: int, b: int| 0 <= a < b < entries@.len() implies entries@[a].0@
                        != entries@[b].0@ by {
                        let sa = if a < p { a } else { a + 1 };
                        let sb = if b < p { b } else { b + 1 };
                        assert(entries@[a] == s[sa]);
                        assert(entries@[b] == s[sb]);
                    }
                }
                self.entries = entries;
            },
            None => {
                proof {
                    lemma_lookup_absent(s, id@, 0);
                }
            },
        }
    }

    /// Records a health check of device `id` at `now`: `None`, with nothing
    /// changed, for a device that is not registered; otherwise whether its
    /// connection state changed, with its status updated.
    pub fn record_check(&mut self, id: &String, connected: bool, now: Instant) -> (r: Option<bool>)
        ensures
            match old(self).status(id@) {
                None => r is None && final(self).status(id@) is None,
                Some(st) => r == Some(st.connected != connected) && final(self).status(id@) == Some(
                    DeviceStatus { connected, last_communication: now, ..st },
                ),
            },
            forall|k: Seq<char>| k != id@ ==> final(self).status(k) == old(self).status(k),
    {
        proof {
            use_type_invariant(&*self);
        }
        let ghost s = self.entries@;
        match self.position(id) {
            Some(p) => {
                proof {
                    lemma_lookup_prefix(s, id@, p as int, 0);
                }
                let mut entries: Vec<(String, DeviceStatus)> = Vec::new();
                std::mem::swap(&mut entries, &mut self.entries);
                let (k, mut st) = entries.remove(p);
                let changed = st.record_check(connected, now);
                entries.insert(p, (k, st));
                proof {
                    assert(entries@ =~= s.update(p as int, (s[p as int].0, st)));
                    assert forall|q: Seq<char>| true implies #[trigger] lookup(entries@, q, 0) == if q
                        == s[p as int].0@ {
                        Some(st)
                    } else {
                        lookup(s, q, 0)
                    } by {
                        lemma_lookup_after_update(s, p as int, st, q, 0);
                    }
                }
                self.entries = entries;
                Some(changed)
            },
            None => {
                proof {
                    lemma_lookup_absent(s, id@, 0);
                }
                None
            },
        }
    }

    /// Applies a configuration update at `now`: removed devices are
    /// forgotten, then added devices are registered with a fresh status;
    /// every other device keeps its status.
    pub fn apply_device_changes(&mut self, summary: &ConfigUpdateSummary, now: Instant)
        ensures
            forall|k: Seq<char>|
                #![trigger final(self).status(k)]
                if texts(summary.added@).contains(k) {
                    final(self).status(k) == Some(fresh_status(now))
                } else if texts(summary.removed@).contains(k) {
                    final(self).status(k) is None
                } else {
                    final(self).status(k) == old(self).status(k)
                },
    {
        let ghost start = *self;
        let mut i: usize = 0;
        while i < summary.removed.len()
            invariant
                i <= summary.removed@.len(),
                forall|k: Seq<char>|
                    #![trigger self.status(k)]
                    if texts(summary.removed@.take(i as int)).contains(k) {
                        self.status(k) is None
                    } else {
                        self.status(k) == start.status(k)
                    },
            decreases summary.removed.len() - i,
        {
            self.remove(&summary.removed[i]);
            proof {
                let before = texts(summary.removed@.take(i as int));
                let x = summary.removed@[i as int]@;
                assert(texts(summary.removed@.take(i + 1)) =~= before.push(x));
                assert forall|k: Seq<char>| #[trigger] self.status(k) == (if before.push(x).contains(k) {
                    None
                } else {
                    start.status(k)
                }) by {
                    if k != x {
                        assert(before.push(x).contains(k) == before.contains(k)) by {
                            if before.push(x).contains(k) {
                                let q = choose|q: int| 0 <= q < before.push(x).len() && before.push(x)[q] == k;
                                assert(q < before.len());
                                assert(before[q] == k);
                            }
                            if before.contains(k) {
                                let q = choose|q: int| 0 <= q < before.len() && before[q] == k;
                                assert(before.push(x)[q] == k);
                            }
                        }
                    } else {
                        assert(before.push(x)[before.len() as int] == x);
                    }
                }
            }
            i = i + 1;
        }
        assert(summary.removed@.take(i as int) =~= summary.removed@);
        let ghost middle = *self;
        let mut j: usize = 0;
        while j < summary.added.len()
            invariant
                j <= summary.added@.len(),
                forall|k: Seq<char>|
                    #![trigger self.status(k)]
                    if texts(summary.added@.take(j as int)).contains(k) {
                        self.status(k) == Some(fresh_status(now))
                    } else {
                        self.status(k) == middle.status(k)
                    },
            decreases summary.added.len() - j,
        {
            self.register(&summary.added[j], now);
            proof {
                let before = texts(summary.added@.take(j as int));
                let x = summary.added@[j as int]@;
                assert(texts(summary.added@.take(j + 1)) =~= before.push(x));
                assert forall|k: Seq<char>| #[trigger] self.status(k) == (if before.push(x).contains(k) {
                    Some(fresh_status(now))
                } else {
                    middle.status(k)
                }) by {
                    if k != x {
                        assert(before.push(x).contains(k) == before.contains(k)) by {
                            if before.push(x).contains(k) {
                                let q = choose|q: int| 0 <= q < before.push(x).len() && before.push(x)[q] == k;
                                assert(q < before.len());
                                assert(before[q] == k);
                            }
                            if before.contains(k) {
                                let q = choose|q: int| 0 <= q < before.len() && before[q] == k;
                                assert(before.push(x)[q] == k);
                            }
                        }
                    } else {
                        assert(before.push(x)[before.len() as int] == x);
                    }
                }
            }
            j = j + 1;
        }
        assert(summary.added@.take(j as int) =~= summary.added@);
    }
}

/// Takes a configuration update at `now`: the device states follow the
/// devices of `new_config` (removed devices forgotten, added ones
/// registered fresh, others kept), `new_config` replaces `current`, and the
/// added, removed and kept device ids are returned.
pub fn apply_config_update(
    current: &mut Config,
    states: &mut DeviceStates,
    new_config: Config,
    now: Instant,
) -> (s: ConfigUpdateSummary)
    ensures
        *final(current) == new_config,
        forall|x: Seq<char>|
            texts(s.added@).contains(x) <==> (ids_of(new_config.devices@).contains(x) && !ids_of(
                old(current).devices@,
            ).contains(x)),
        forall|x: Seq<char>|
            texts(s.removed@).contains(x) <==> (ids_of(old(current).devices@).contains(x) && !ids_of(
                new_config.devices@,
            ).contains(x)),
        forall|x: Seq<char>|
            texts(s.unchanged@).contains(x) <==> (ids_of(old(current).devices@).contains(x) && ids_of(
                new_config.devices@,
            ).contains(x)),
        forall|k: Seq<char>|
            #![trigger final(states).status(k)]
            if texts(s.added@).contains(k) {
                final(states).status(k) == Some(fresh_status(now))
            } else if texts(s.removed@).contains(k) {
                final(states).status(k) is None
            } else {
                final(states).status(k) == old(states).status(k)
            },
{
    let summary = device_changes(current.devices.as_slice(), new_config.devices.as_slice());
    states.apply_device_changes(&summary, now);
    *current = new_config;
    summary
}

} // verus!
