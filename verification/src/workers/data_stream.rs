//! Streaming data: enabled streams grouped by poll interval, which groups
//! are due for a poll, and the keys under which their values are cached.

use crate::config::StreamConfig;
use crate::text::{chars_of, push_chars, push_str, string_from_chars};
use vstd::prelude::*;

verus! {

/// How long a poll waits for its answer, in milliseconds.
pub const DEFAULT_POLL_TIMEOUT_MS: u64 = 2000;

/// The latency recorded for a poll that timed out, in microseconds.
pub const TIMED_OUT_POLL_LATENCY_US: u64 = 2000000;

/// The distinct poll intervals of the enabled streams, in the order they
/// first appear.
pub open spec fn first_intervals(streams: Seq<StreamConfig>) -> Seq<u32>
    decreases streams.len(),
{
    if streams.len() == 0 {
        Seq::empty()
    } else {
        let rest = first_intervals(streams.drop_last());
        let s = streams.last();
        if s.enabled && !rest.contains(s.poll_interval_ms) {
            rest.push(s.poll_interval_ms)
        } else {
            rest
        }
    }
}

/// The enabled streams polled every `interval` milliseconds, in order.
pub open spec fn streams_at(streams: Seq<StreamConfig>, interval: u32) -> Seq<StreamConfig>
    decreases streams.len(),
{
    if streams.len() == 0 {
        Seq::empty()
    } else {
        let rest = streams_at(streams.drop_last(), interval);
        let s = streams.last();
        if s.enabled && s.poll_interval_ms == interval {
            rest.push(s)
        } else {
            rest
        }
    }
}

/// The streams grouped under `interval` are exactly the enabled streams
/// whose poll interval is `interval`: every one of them is enabled and has
/// that interval, and every enabled stream with that interval is among them.
pub proof fn lemma_group_members(streams: Seq<StreamConfig>, interval: u32)
    ensures
        forall|k: int|
            0 <= k < streams_at(streams, interval).len() ==> {
                &&& (#[trigger] streams_at(streams, interval)[k]).enabled
                &&& streams_at(streams, interval)[k].poll_interval_ms == interval
            },
        forall|s: StreamConfig|
            #![trigger streams_at(streams, interval).contains(s)]
            streams_at(streams, interval).contains(s) <==> (s.enabled && s.poll_interval_ms == interval
                && streams.contains(s)),
    decreases streams.len(),
{
    if streams.len() > 0 {
        let init = streams.drop_last();
        let last = streams.last();
        lemma_group_members(init, interval);
        let rest = streams_at(init, interval);
        let all = streams_at(streams, interval);
        assert(streams[streams.len() - 1] == last);
        assert forall|s: StreamConfig|
            #![trigger streams_at(streams, interval).contains(s)]
            streams_at(streams, interval).contains(s) <==> (s.enabled && s.poll_interval_ms
                == interval && streams.contains(s)) by {
            if streams.contains(s) {
                let w = choose|w: int| 0 <= w < streams.len() && streams[w] == s;
                if w < init.len() {
                    assert(init[w] == s);
                }
            }
            if init.contains(s) {
                let w = choose|w: int| 0 <= w < init.len() && init[w] == s;
                assert(streams[w] == s);
            }
            if last.enabled && last.poll_interval_ms == interval {
                assert(all[rest.len() as int] == last);
                if all.contains(s) {
                    let w = choose|w: int| 0 <= w < all.len() && all[w] == s;
                    if w < rest.len() {
                        assert(rest[w] == s);
                    }
                }
                if rest.contains(s) {
                    let w = choose|w: int| 0 <= w < rest.len() && rest[w] == s;
                    assert(all[w] == s);
                }
            }
        }
        assert forall|k: int| 0 <= k < all.len() implies {
            &&& (#[trigger] all[k]).enabled
            &&& all[k].poll_interval_ms == interval
        } by {
            if k < rest.len() {
                assert(all[k] == rest[k]);
            }
        }
    }
}

/// The enabled streams that share one poll interval.
#[derive(Debug)]
pub struct StreamGroup {
    pub interval_ms: u32,
    pub streams: Vec<StreamConfig>,
}

/// A copy of a stream configuration.
pub fn copy_stream(s: &StreamConfig) -> (r: StreamConfig)
    ensures
        r == *s,
{
    StreamConfig {
        device_id: s.device_id.clone(),
        signal_group: s.signal_group.clone(),
        poll_interval_ms: s.poll_interval_ms,
        enabled: s.enabled,
        priority: s.priority,
    }
}

fn distinct_intervals(streams: &[StreamConfig]) -> (r: Vec<u32>)
    ensures
        r@ == first_intervals(streams@),
{
    let mut out: Vec<u32> = Vec::new();
    let mut i: usize = 0;
    while i < streams.len()
        invariant
            i <= streams@.len(),
            out@ == first_intervals(streams@.take(i as int)),
        decreases streams.len() - i,
    {
        assert(streams@.take(i + 1).drop_last() =~= streams@.take(i as int));
        let s = &streams[i];
        if s.enabled {
            let mut seen = false;
            let mut k: usize = 0;
            while k < out.len()
                invariant
                    k <= out@.len(),
                    seen == exists|j: int| 0 <= j < k && out@[j] == s.poll_interval_ms,
                decreases out.len() - k,
            {
                if out[k] == s.poll_interval_ms {
                    seen = true;
                }
                k = k + 1;
            }
            assert(seen == out@.contains(s.poll_interval_ms));
            if !seen {
                out.push(s.poll_interval_ms);
            }
        }
        i = i + 1;
    }
    assert(streams@.take(i as int) =~= streams@);
    out
}

fn streams_with_interval(streams: &[StreamConfig], interval: u32) -> (r: Vec<StreamConfig>)
    ensures
        r@ == streams_at(streams@, interval),
{
    let mut out: Vec<StreamConfig> = Vec::new();
    let mut i: usize = 0;
    while i < streams.len()
        invariant
            i <= streams@.len(),
            out@ == streams_at(streams@.take(i as int), interval),
        decreases streams.len() - i,
    {
        assert(streams@.take(i + 1).drop_last() =~= streams@.take(i as int));
        if streams[i].enabled && streams[i].poll_interval_ms == interval {
            out.push(copy_stream(&streams[i]));
        }
        i = i + 1;
    }
    assert(streams@.take(i as int) =~= streams@);
    out
}

/// Groups the enabled streams by poll interval: one group per interval, in
/// the order the intervals first appear, each holding its streams in order.
/// Disabled streams are left out.
pub fn group_streams_by_interval(streams: &[StreamConfig]) -> (r: Vec<StreamGroup>)
    ensures
        r@.len() == first_intervals(streams@).len(),
        forall|j: int|
            0 <= j < r@.len() ==> {
                &&& (#[trigger] r@[j]).interval_ms == first_intervals(streams@)[j]
                &&& r@[j].streams@ == streams_at(streams@, r@[j].interval_ms)
            },
        forall|j: int, k: int|
            0 <= j < r@.len() && 0 <= k < r@[j].streams@.len() ==> {
                &&& (#[trigger] r@[j].streams@[k]).enabled
                &&& r@[j].streams@[k].poll_interval_ms == r@[j].interval_ms
                &&& streams@.contains(r@[j].streams@[k])
            },
        forall|i: int|
            0 <= i < streams@.len() && (#[trigger] streams@[i]).enabled ==> exists|j: int|
                0 <= j < r@.len() && r@[j].interval_ms == streams@[i].poll_interval_ms
                    && (#[trigger] r@[j].streams@).contains(streams@[i]),
{
    let intervals = distinct_intervals(streams);
    let mut groups: Vec<StreamGroup> = Vec::new();
    let mut j: usize = 0;
    while j < intervals.len()
        invariant
            j <= intervals@.len(),
            intervals@ == first_intervals(streams@),
            groups@.len() == j,
            forall|q: int|
                0 <= q < j ==> {
                    &&& (#[trigger] groups@[q]).interval_ms == intervals@[q]
                    &&& groups@[q].streams@ == streams_at(streams@, groups@[q].interval_ms)
                },
        decreases intervals.len() - j,
    {
        let interval = intervals[j];
        let members = streams_with_interval(streams, interval);
        groups.push(StreamGroup { interval_ms: interval, streams: members });
        j = j + 1;
    }
    proof {
        assert forall|j: int, k: int|
            0 <= j < groups@.len() && 0 <= k < groups@[j].streams@.len() implies {
                &&& (#[trigger] groups@[j].streams@[k]).enabled
                &&& groups@[j].streams@[k].poll_interval_ms == groups@[j].interval_ms
                &&& streams@.contains(groups@[j].streams@[k])
            } by {
            let v = groups@[j].interval_ms;
            lemma_group_members(streams@, v);
            assert(streams_at(streams@, v)[k] == groups@[j].streams@[k]);
            assert(streams_at(streams@, v).contains(groups@[j].streams@[k]));
        }
        lemma_groups_cover(streams@);
        assert forall|i: int| 0 <= i < streams@.len() && (#[trigger] streams@[i]).enabled implies exists|
            j: int,
        |
            0 <= j < groups@.len() && groups@[j].interval_ms == streams@[i].poll_interval_ms
                && (#[trigger] groups@[j].streams@).contains(streams@[i]) by {
            let s = streams@[i];
            let v = s.poll_interval_ms;
            assert(first_intervals(streams@).contains(v));
            let j = choose|j: int| 0 <= j < first_intervals(streams@).len() && first_intervals(streams@)[j] == v;
            assert(groups@[j].interval_ms == v);
            lemma_group_members(streams@, v);
            assert(streams@.contains(s));
            assert(streams_at(streams@, v).contains(s));
        }
    }
    groups
}

/// The intervals of the groups have no repeats, and there is a group for
/// exactly the intervals of the enabled streams.
pub proof fn lemma_groups_cover(streams: Seq<StreamConfig>)
    ensures
        first_intervals(streams).no_duplicates(),
        forall|v: u32|
            first_intervals(streams).contains(v) <==> exists|k: int|
                0 <= k < streams.len() && (#[trigger] streams[k]).enabled
                    && streams[k].poll_interval_ms == v,
    decreases streams.len(),
{
    if streams.len() > 0 {
        let prefix = streams.drop_last();
        let last = streams.last();
        let n = streams.len() - 1;
        lemma_groups_cover(prefix);
        let rest = first_intervals(prefix);
        assert(streams[n] == last);
        assert forall|v: u32|
            first_intervals(streams).contains(v) <==> exists|k: int|
                0 <= k < streams.len() && (#[trigger] streams[k]).enabled
                    && streams[k].poll_interval_ms == v by {
            if rest.contains(v) {
                let k = choose|k: int|
                    0 <= k < prefix.len() && (#[trigger] prefix[k]).enabled
                        && prefix[k].poll_interval_ms == v;
                assert(streams[k] == prefix[k]);
                let w = choose|w: int| 0 <= w < rest.len() && rest[w] == v;
                if last.enabled && !rest.contains(last.poll_interval_ms) {
                    assert(rest.push(last.poll_interval_ms)[w] == v);
                }
            } else {
                if last.enabled && last.poll_interval_ms == v {
                    assert(rest.push(v)[rest.len() as int] == v);
                }
                if first_intervals(streams).contains(v) {
                    let w = choose|w: int|
                        0 <= w < first_intervals(streams).len() && first_intervals(streams)[w] == v;
                    if last.enabled && !rest.contains(last.poll_interval_ms) {
                        if w < rest.len() {
                            assert(rest[w] == v);
                        }
                    } else {
                        assert(rest[w] == v);
                    }
                }
                if exists|k: int|
                    0 <= k < streams.len() && (#[trigger] streams[k]).enabled
                        && streams[k].poll_interval_ms == v {
                    let k = choose|k: int|
                        0 <= k < streams.len() && (#[trigger] streams[k]).enabled
                            && streams[k].poll_interval_ms == v;
                    if k < prefix.len() {
                        assert(prefix[k] == streams[k]);
                    }
                }
            }
        }
        if last.enabled && !rest.contains(last.poll_interval_ms) {
            let pushed = rest.push(last.poll_interval_ms);
            assert forall|i: int, j: int|
                0 <= i < pushed.len() && 0 <= j < pushed.len() && i != j implies pushed[i]
                != pushed[j] by {
                if i < rest.len() && j < rest.len() {
                } else if i < rest.len() {
                    assert(rest.contains(rest[i]));
                } else {
                    assert(rest.contains(rest[j]));
                }
            }
        }
    }
}

/// Milliseconds from `last` to `now`; zero when `now` is earlier.
pub open spec fn elapsed_ms(last: u64, now: u64) -> u64 {
    if now >= last {
        (now - last) as u64
    } else {
        0
    }
}

/// The stream groups and when each was last polled.
pub struct DataStreamSchedule {
    groups: Vec<StreamGroup>,
    last_poll_ms: Vec<u64>,
    sequence: u64,
}

impl DataStreamSchedule {
    #[verifier::type_invariant]
    spec fn wf(self) -> bool {
        self.groups@.len() == self.last_poll_ms@.len()
    }

    pub closed spec fn group_list(self) -> Seq<StreamGroup> {
        self.groups@
    }

    /// When each group was last polled, in milliseconds.
    pub closed spec fn polled_at(self) -> Seq<u64> {
        self.last_poll_ms@
    }

    /// The sequence number of the last update sent.
    pub closed spec fn seq_no(self) -> u64 {
        self.sequence
    }

    /// Whether the schedule groups `streams` and counts every group as polled
    /// at `now`.
    pub open spec fn fresh_for(self, streams: Seq<StreamConfig>, now: u64) -> bool {
        &&& self.group_list().len() == first_intervals(streams).len()
        &&& self.polled_at().len() == self.group_list().len()
        &&& forall|j: int|
            0 <= j < self.group_list().len() ==> {
                &&& (#[trigger] self.group_list()[j]).interval_ms == first_intervals(streams)[j]
                &&& self.group_list()[j].streams@ == streams_at(
                    streams,
                    self.group_list()[j].interval_ms,
                )
                &&& self.polled_at()[j] == now
            }
    }

    fn regrouped(streams: &[StreamConfig], now_ms: u64) -> (r: (Vec<StreamGroup>, Vec<u64>))
        ensures
            r.0@.len() == first_intervals(streams@).len(),
            r.1@.len() == r.0@.len(),
            forall|j: int|
                0 <= j < r.0@.len() ==> {
                    &&& (#[trigger] r.0@[j]).interval_ms == first_intervals(streams@)[j]
                    &&& r.0@[j].streams@ == streams_at(streams@, r.0@[j].interval_ms)
                    &&& r.1@[j] == now_ms
                },
    {
        let groups = group_streams_by_interval(streams);
        let mut times: Vec<u64> = Vec::new();
        let mut j: usize = 0;
        while j < groups.len()
            invariant
                j <= groups@.len(),
                times@.len() == j,
                forall|q: int| 0 <= q < j ==> times@[q] == now_ms,
            decreases groups.len() - j,
        {
            times.push(now_ms);
            j = j + 1;
        }
        (groups, times)
    }

    /// The groups of `streams`, every one counted as polled at `now_ms`;
    /// the sequence starts at zero.
    pub fn new(streams: &[StreamConfig], now_ms: u64) -> (s: Self)
        ensures
            s.fresh_for(streams@, now_ms),
            s.seq_no() == 0,
    {
        let (groups, last_poll_ms) = Self::regrouped(streams, now_ms);
        DataStreamSchedule { groups, last_poll_ms, sequence: 0 }
    }

    /// Regroups after a configuration change; every group counts as polled
    /// at `now_ms`. The sequence goes on.
    pub fn update_streams(&mut self, streams: &[StreamConfig], now_ms: u64)
        ensures
            final(self).fresh_for(streams@, now_ms),
            final(self).seq_no() == old(self).seq_no(),
    {
        let (groups, last_poll_ms) = Self::regrouped(streams, now_ms);
        *self = DataStreamSchedule { groups, last_poll_ms, sequence: self.sequence };
    }

    pub fn groups(&self) -> (g: &Vec<StreamGroup>)
        ensures
            g@ == self.group_list(),
    {
        &self.groups
    }

    /// The indices of the groups whose interval has passed since their last
    /// poll, in order.
    pub fn due_groups(&self, now_ms: u64) -> (r: Vec<usize>)
        ensures
            forall|k: int|
                0 <= k < r@.len() ==> #[trigger] r@[k] < self.group_list().len() && elapsed_ms(
                    self.polled_at()[r@[k] as int],
                    now_ms,
                ) >= self.group_list()[r@[k] as int].interval_ms,
            forall|j: int|
                0 <= j < self.group_list().len() && elapsed_ms(self.polled_at()[j], now_ms)
                    >= self.group_list()[j].interval_ms ==> r@.contains(j as usize),
            forall|a: int, b: int| 0 <= a < b < r@.len() ==> r@[a] < r@[b],
    {
        proof {
            use_type_invariant(self);
        }
        let mut due: Vec<usize> = Vec::new();
        let mut j: usize = 0;
        while j < self.groups.len()
            invariant
                j <= self.groups@.len() == self.last_poll_ms@.len(),
                forall|k: int|
                    0 <= k < due@.len() ==> #[trigger] due@[k] < j && elapsed_ms(
                        self.last_poll_ms@[due@[k] as int],
                        now_ms,
                    ) >= self.groups@[due@[k] as int].interval_ms,
                forall|q: int|
                    0 <= q < j && elapsed_ms(self.last_poll_ms@[q], now_ms)
                        >= self.groups@[q].interval_ms ==> due@.contains(q as usize),
                forall|a: int, b: int| 0 <= a < b < due@.len() ==> due@[a] < due@[b],
            decreases self.groups.len() - j,
        {
            let last = self.last_poll_ms[j];
            let elapsed = if now_ms >= last {
                now_ms - last
            } else {
                0
            };
            if elapsed >= self.groups[j].interval_ms as u64 {
                let ghost before = due@;
                due.push(j);
                assert forall|q: int|
                    0 <= q < j + 1 && elapsed_ms(self.last_poll_ms@[q], now_ms)
                        >= self.groups@[q].interval_ms implies due@.contains(q as usize) by {
                    if q < j {
                        let w = choose|w: int| 0 <= w < before.len() && before[w] == q as usize;
                        assert(due@[w] == q as usize);
                    } else {
                        assert(due@[before.len() as int] == q as usize);
                    }
                }
            }
            j = j + 1;
        }
        due
    }

    /// Counts group `index` as polled at `now_ms`.
    pub fn mark_polled(&mut self, index: usize, now_ms: u64)
        requires
            index < old(self).group_list().len(),
        ensures
            final(self).polled_at() == old(self).polled_at().update(index as int, now_ms),
            final(self).group_list() == old(self).group_list(),
            final(self).seq_no() == old(self).seq_no(),
    {
        proof {
            use_type_invariant(&*self);
        }
        let mut times: Vec<u64> = Vec::new();
        let mut j: usize = 0;
        while j < self.last_poll_ms.len()
            invariant
                j <= self.last_poll_ms@.len(),
                index < self.last_poll_ms@.len(),
                times@ == self.last_poll_ms@.update(index as int, now_ms).take(j as int),
            decreases self.last_poll_ms.len() - j,
        {
            let t = if j == index {
                now_ms
            } else {
                self.last_poll_ms[j]
            };
            times.push(t);
            assert(times@ =~= self.last_poll_ms@.update(index as int, now_ms).take(j + 1));
            j = j + 1;
        }
        assert(times@ =~= self.last_poll_ms@.update(index as int, now_ms));
        self.last_poll_ms = times;
    }

    /// The sequence number of the last update sent.
    pub fn sequence(&self) -> (n: u64)
        ensures
            n == self.seq_no(),
    {
        self.sequence
    }

    /// The sequence number of the next update.
    pub fn next_sequence(&mut self) -> (n: u64)
        requires
            old(self).seq_no() < u64::MAX,
        ensures
            n == old(self).seq_no() + 1,
            final(self).seq_no() == n,
            final(self).group_list() == old(self).group_list(),
            final(self).polled_at() == old(self).polled_at(),
    {
        proof {
            use_type_invariant(&*self);
        }
        self.sequence = self.sequence + 1;
        self.sequence
    }
}

/// The cache key of a signal group of a device: `device_group`.
pub fn cache_key(device_id: &str, signal_group: &str) -> (k: String)
    ensures
        k@ == device_id@ + "_"@ + signal_group@,
{
    let mut out = chars_of(device_id);
    push_str(&mut out, "_");
    let g = chars_of(signal_group);
    push_chars(&mut out, &g);
    string_from_chars(&out)
}

/// How a poll of a signal group ended: the device's reply, no reply within
/// [`DEFAULT_POLL_TIMEOUT_MS`], or a closed reply channel.
#[derive(Debug, Clone, Copy, PartialEq, Eq, Structural)]
pub enum PollOutcome {
    Reply { success: bool },
    TimedOut,
    Closed,
}

/// What follows a poll. `cache` is the cache entry to write, as whether its
/// values are taken from the reply (otherwise they are null), its latency
/// in microseconds, and whether it records an error; `publish` is whether
/// an update is published with the next sequence number; `result` is the
/// success and latency that the poll reports.
#[derive(Debug, Clone, Copy)]
pub struct PollAction {
    pub cache: Option<(bool, u64, bool)>,
    pub publish: bool,
    pub result: (bool, u64),
}

/// The step after a poll that ended with `outcome`, `latency_us` after it
/// started: a reply is cached (its fields when it succeeded, an error
/// otherwise) and published; a timeout is cached as an error with
/// [`TIMED_OUT_POLL_LATENCY_US`] and not published; a closed channel leaves
/// everything as it was.
pub fn poll_step(outcome: PollOutcome, latency_us: u64) -> (a: PollAction)
    ensures
        outcome matches PollOutcome::Reply { success } ==> a.cache == Some((success, latency_us, !success))
            && a.publish && a.result == (success, latency_us),
        outcome is TimedOut ==> a.cache == Some((false, TIMED_OUT_POLL_LATENCY_US, true)) && !a.publish
            && a.result == (false, TIMED_OUT_POLL_LATENCY_US),
        outcome is Closed ==> a.cache is None && !a.publish && a.result == (false, 0u64),
{
    match outcome {
        PollOutcome::Reply { success } => PollAction {
            cache: Some((success, latency_us, !success)),
            publish: true,
            result: (success, latency_us),
        },
        PollOutcome::TimedOut => PollAction {
            cache: Some((false, TIMED_OUT_POLL_LATENCY_US, true)),
            publish: false,
            result: (false, TIMED_OUT_POLL_LATENCY_US),
        },
        PollOutcome::Closed => PollAction { cache: None, publish: false, result: (false, 0) },
    }
}

} // verus!
