//! The decisions behind the HTTP interface: the health of the system, the
//! freshness of cached values, and the signal groups a stream asks for.

use crate::text::{chars_of, copy_range, push_chars, push_str, string_from_chars, trim, trim_bounds};
use vstd::prelude::*;

verus! {

/// Age below which cached values count as fresh, in milliseconds.
pub const CACHE_TTL_MS: u64 = 50;

/// The health of the system as a whole.
#[derive(Debug, Clone, Copy, PartialEq, Eq, Structural)]
pub enum HealthStatus {
    Healthy,
    Degraded,
    Unhealthy,
}

/// The health of a system with `total` devices of which `connected` are
/// connected: unhealthy with no devices or none connected, healthy with all
/// connected, degraded otherwise.
pub open spec fn health_of(total: nat, connected: nat) -> HealthStatus {
    if total == 0 {
        HealthStatus::Unhealthy
    } else if connected == total {
        HealthStatus::Healthy
    } else if connected == 0 {
        HealthStatus::Unhealthy
    } else {
        HealthStatus::Degraded
    }
}

impl HealthStatus {
    pub open spec fn text(self) -> Seq<char> {
        match self {
            HealthStatus::Healthy => "healthy"@,
            HealthStatus::Degraded => "degraded"@,
            HealthStatus::Unhealthy => "unhealthy"@,
        }
    }

    /// The name under which the status is reported.
    pub fn as_str(&self) -> (s: &'static str)
        ensures
            s@ == self.text(),
    {
        match self {
            HealthStatus::Healthy => "healthy",
            HealthStatus::Degraded => "degraded",
            HealthStatus::Unhealthy => "unhealthy",
        }
    }
}

/// The number of `true` entries of `s`.
pub open spec fn count_true(s: Seq<bool>) -> nat
    decreases s.len(),
{
    if s.len() == 0 {
        0
    } else {
        count_true(s.drop_last()) + if s.last() {
            1nat
        } else {
            0nat
        }
    }
}

/// The health report: the status and the device counts.
#[derive(Debug, Clone, Copy, PartialEq, Eq, Structural)]
pub struct HealthSummary {
    pub status: HealthStatus,
    pub total: usize,
    pub connected: usize,
    pub disconnected: usize,
}

proof fn lemma_count_bound(s: Seq<bool>)
    ensures
        count_true(s) <= s.len(),
    decreases s.len(),
{
    if s.len() > 0 {
        lemma_count_bound(s.drop_last());
    }
}

/// The health report of devices whose connection flags are `connected`.
pub fn health_summary(connected: &[bool]) -> (h: HealthSummary)
    ensures
        h.total == connected@.len(),
        h.connected == count_true(connected@),
        h.disconnected == h.total - h.connected,
        h.status == health_of(h.total as nat, h.connected as nat),
{
    let total = connected.len();
    let mut up: usize = 0;
    let mut i: usize = 0;
    while i < total
        invariant
            i <= total == connected@.len(),
            up == count_true(connected@.take(i as int)),
            up <= i,
        decreases total - i,
    {
        assert(connected@.take(i + 1).drop_last() =~= connected@.take(i as int));
        if connected[i] {
            up = up + 1;
        }
        i = i + 1;
    }
    assert(connected@.take(i as int) =~= connected@);
    let status = if total == 0 {
        HealthStatus::Unhealthy
    } else if up == total {
        HealthStatus::Healthy
    } else if up == 0 {
        HealthStatus::Unhealthy
    } else {
        HealthStatus::Degraded
    };
    HealthSummary { status, total, connected: up, disconnected: total - up }
}

/// The age of a value cached at `timestamp_ms`, seen at `now_ms`; zero when
/// the clock went back.
pub fn cache_age_ms(now_ms: u64, timestamp_ms: u64) -> (a: u64)
    ensures
        a == if now_ms >= timestamp_ms {
            (now_ms - timestamp_ms) as u64
        } else {
            0
        },
{
    now_ms.saturating_sub(timestamp_ms)
}

/// Whether cached values of that age are fresh for the HTTP interface.
pub fn is_fresh_for_http(age_ms: u64) -> (b: bool)
    ensures
        b == (age_ms < CACHE_TTL_MS),
{
    age_ms < CACHE_TTL_MS
}

/// Whether a cache entry of that age is fresh under `ttl_ms`.
pub fn is_fresh(age_ms: u64, ttl_ms: u64) -> (b: bool)
    ensures
        b == (age_ms <= ttl_ms),
{
    age_ms <= ttl_ms
}

/// The answer to a request for values that are not cached.
pub open spec fn cache_miss_text(device_id: Seq<char>, group: Seq<char>) -> Seq<char> {
    "Cache miss: no data found for device '"@ + device_id + "' and signal group '"@ + group + "'"@
}

pub fn cache_miss_message(device_id: &str, signal_group: &str) -> (m: String)
    ensures
        m@ == cache_miss_text(device_id@, signal_group@),
{
    let mut out: Vec<char> = Vec::new();
    push_str(&mut out, "Cache miss: no data found for device '");
    push_str(&mut out, device_id);
    push_str(&mut out, "' and signal group '");
    push_str(&mut out, signal_group);
    push_str(&mut out, "'");
    string_from_chars(&out)
}

/// The pieces of `s` between commas.
pub open spec fn comma_pieces(s: Seq<char>) -> Seq<Seq<char>>
    decreases s.len(),
{
    if s.len() == 0 {
        seq![Seq::empty()]
    } else {
        let p = comma_pieces(s.drop_last());
        if s.last() == ',' {
            p.push(Seq::empty())
        } else {
            p.update(p.len() - 1, p.last().push(s.last()))
        }
    }
}

proof fn lemma_comma_pieces_nonempty(s: Seq<char>)
    ensures
        comma_pieces(s).len() >= 1,
    decreases s.len(),
{
    if s.len() > 0 {
        lemma_comma_pieces_nonempty(s.drop_last());
    }
}

/// The names of the trimmed, non-empty pieces of `pieces`, in order.
pub open spec fn kept_names(pieces: Seq<Seq<char>>) -> Seq<Seq<char>>
    decreases pieces.len(),
{
    if pieces.len() == 0 {
        Seq::empty()
    } else {
        let rest = kept_names(pieces.drop_last());
        if trim(pieces.last()).len() > 0 {
            rest.push(trim(pieces.last()))
        } else {
            rest
        }
    }
}

/// The signal groups a stream asks for: the comma-separated names, trimmed,
/// empty ones left out.
pub open spec fn group_names(s: Seq<char>) -> Seq<Seq<char>> {
    kept_names(comma_pieces(s))
}

pub open spec fn texts(v: Seq<String>) -> Seq<Seq<char>> {
    v.map_values(|s: String| s@)
}

fn keep_trimmed(out: &mut Vec<String>, piece: &Vec<char>)
    ensures
        texts(final(out)@) == if trim(piece@).len() > 0 {
            texts(old(out)@).push(trim(piece@))
        } else {
            texts(old(out)@)
        },
{
    let (lo, hi) = trim_bounds(piece);
    if lo < hi {
        let t = copy_range(piece, lo, hi);
        let s = string_from_chars(&t);
        out.push(s);
        assert(texts(out@) =~= texts(old(out)@).push(trim(piece@)));
    }
}

/// Splits the `groups` parameter of a stream request into signal group
/// names.
pub fn parse_signal_groups(groups: &str) -> (r: Vec<String>)
    ensures
        texts(r@) == group_names(groups@),
{
    let chars = chars_of(groups);
    let mut out: Vec<String> = Vec::new();
    let mut current: Vec<char> = Vec::new();
    let ghost mut done: Seq<Seq<char>> = Seq::empty();
    let mut i: usize = 0;
    assert(chars@.take(0) =~= Seq::<char>::empty());
    while i < chars.len()
        invariant
            i <= chars@.len(),
            comma_pieces(chars@.take(i as int)) == done.push(current@),
            texts(out@) == kept_names(done),
        decreases chars.len() - i,
    {
        let c = chars[i];
        assert(chars@.take(i + 1).drop_last() =~= chars@.take(i as int));
        if c == ',' {
            keep_trimmed(&mut out, &current);
            proof {
                assert(done.push(current@).drop_last() =~= done);
                done = done.push(current@);
            }
            current = Vec::new();
            assert(comma_pieces(chars@.take(i + 1)) =~= done.push(current@));
        } else {
            let ghost before = current@;
            current.push(c);
            assert(comma_pieces(chars@.take(i + 1)) =~= done.push(current@));
        }
        i = i + 1;
    }
    assert(chars@.take(i as int) =~= groups@);
    keep_trimmed(&mut out, &current);
    assert(done.push(current@).drop_last() =~= done);
    out
}

/// The signal groups a stream request follows: refused with
/// `No signal groups specified` when the `groups` parameter names none, in
/// which case no stream opens.
pub fn stream_groups(groups: &str) -> (r: Result<Vec<String>, String>)
    ensures
        match r {
            Ok(v) => texts(v@) == group_names(groups@) && v@.len() > 0,
            Err(m) => group_names(groups@).len() == 0 && m@ == "No signal groups specified"@,
        },
{
    let names = parse_signal_groups(groups);
    if names.len() == 0 {
        Err("No signal groups specified".to_owned())
    } else {
        Ok(names)
    }
}

} // verus!
