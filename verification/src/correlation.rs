//! Correlation ids for matching requests with responses.

use vstd::prelude::*;

verus! {

/// The counter that correlation ids are drawn from. It starts at 1; 0 is
/// left free as a special value.
pub struct CorrelationCounter {
    next: u64,
}

/// `v + 1`, wrapping to 0 after `u64::MAX`.
pub open spec fn wrapping_succ(v: u64) -> u64 {
    if v == u64::MAX {
        0
    } else {
        (v + 1) as u64
    }
}

/// The value a counter holds after `k` ids were drawn from it.
pub open spec fn counter_after(start: u64, k: nat) -> u64
    decreases k,
{
    if k == 0 {
        start
    } else {
        wrapping_succ(counter_after(start, (k - 1) as nat))
    }
}

impl CorrelationCounter {
    /// The id the next call of [`next_correlation_id`] returns.
    pub closed spec fn upcoming(&self) -> u64 {
        self.next
    }

    pub fn new() -> (c: Self)
        ensures
            c.upcoming() == 1,
    {
        CorrelationCounter { next: 1 }
    }

    /// A counter whose first id is `start`.
    pub fn starting_at(start: u64) -> (c: Self)
        ensures
            c.upcoming() == start,
    {
        CorrelationCounter { next: start }
    }
}

/// Draws the next correlation id: the counter's value, which then advances
/// by one (wrapping after `u64::MAX`).
pub fn next_correlation_id(counter: &mut CorrelationCounter) -> (id: u64)
    ensures
        id == old(counter).upcoming(),
        final(counter).upcoming() == wrapping_succ(id),
{
    let id = counter.next;
    counter.next = counter.next.wrapping_add(1);
    id
}

/// Ids drawn one after another from a counter strictly increase, and so are
/// all distinct, as long as the counter does not pass `u64::MAX`.
pub proof fn lemma_ids_increase(start: u64, i: nat, j: nat)
    requires
        i < j,
        start + j <= u64::MAX,
    ensures
        counter_after(start, i) < counter_after(start, j),
        counter_after(start, j) == start + j,
    decreases j,
{
    if j == i + 1 {
        lemma_counter_value(start, i);
    } else {
        lemma_ids_increase(start, i, (j - 1) as nat);
    }
    lemma_counter_value(start, j);
}

proof fn lemma_counter_value(start: u64, k: nat)
    requires
        start + k <= u64::MAX,
    ensures
        counter_after(start, k) == start + k,
    decreases k,
{
    if k > 0 {
        lemma_counter_value(start, (k - 1) as nat);
    }
}

} // verus!
