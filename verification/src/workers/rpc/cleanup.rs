//! Which pending requests have waited too long.

use vstd::prelude::*;

verus! {

/// How long a pending request may wait before it is cleaned up, in
/// milliseconds.
pub const REQUEST_CLEANUP_TIMEOUT_MS: u64 = 35000;

/// Milliseconds from `created` to `now`; zero when `now` is earlier.
pub open spec fn waited_ms(created: u64, now: u64) -> u64 {
    if now >= created {
        (now - created) as u64
    } else {
        0
    }
}

/// Whether a request created at `created` has waited too long at `now`.
pub open spec fn timed_out(created: u64, now: u64) -> bool {
    waited_ms(created, now) > REQUEST_CLEANUP_TIMEOUT_MS
}

/// The correlation identifiers of the pending requests, given as pairs of
/// identifier and creation time, that have waited more than
/// [`REQUEST_CLEANUP_TIMEOUT_MS`], in order.
pub fn timed_out_requests(pending: &[(u64, u64)], now_ms: u64) -> (r: Vec<u64>)
    ensures
        r@ == pending@.filter(|p: (u64, u64)| timed_out(p.1, now_ms)).map_values(
            |p: (u64, u64)| p.0,
        ),
{
    let mut out: Vec<u64> = Vec::new();
    let mut i: usize = 0;
    while i < pending.len()
        invariant
            i <= pending@.len(),
            out@ == pending@.take(i as int).filter(|p: (u64, u64)| timed_out(p.1, now_ms)).map_values(
                |p: (u64, u64)| p.0,
            ),
        decreases pending.len() - i,
    {
        let (id, created) = pending[i];
        proof {
            assert(pending@.take(i + 1).drop_last() =~= pending@.take(i as int));
            reveal(Seq::filter);
        }
        let waited = if now_ms >= created {
            now_ms - created
        } else {
            0
        };
        if waited > REQUEST_CLEANUP_TIMEOUT_MS {
            out.push(id);
        }
        assert(out@ =~= pending@.take(i + 1).filter(|p: (u64, u64)| timed_out(p.1, now_ms)).map_values(
            |p: (u64, u64)| p.0,
        ));
        i = i + 1;
    }
    assert(pending@.take(i as int) =~= pending@);
    out
}

} // verus!
