//! Connection state, reconnection backoff, adaptive operation timeouts and
//! the limiter of concurrent operations.

use crate::time::{duration_of_millis, millis};
use std::collections::VecDeque;
use std::time::Duration;
use vstd::prelude::*;

verus! {

/// Default operation timeout, in milliseconds.
pub const BASE_TIMEOUT_MS: u64 = 1000;

/// Largest operation timeout, in milliseconds.
pub const MAX_TIMEOUT_MS: u64 = 30000;

/// First reconnection delay, in milliseconds.
pub const BACKOFF_BASE_MS: u64 = 100;

/// Largest reconnection delay before jitter, in milliseconds.
pub const BACKOFF_MAX_MS: u64 = 30000;

/// State of the connection to a device.
#[derive(Debug, Clone, Copy, PartialEq, Eq, Structural)]
pub enum ConnectionState {
    Disconnected,
    Connecting,
    Connected,
}

// ===================== Backoff =====================
/// Exponential reconnection backoff with jitter.
#[derive(Debug, Clone, Copy)]
pub struct Backoff {
    attempts: u32,
    next_delay_ms: u64,
}

pub open spec fn doubled_delay(d: u64) -> u64 {
    if d * 2 < BACKOFF_MAX_MS {
        (d * 2) as u64
    } else {
        BACKOFF_MAX_MS
    }
}

/// The delay returned for base delay `d` at attempt `a`: `d` plus a jitter of
/// a tenth of `d` times `a mod 3`.
pub open spec fn jittered_delay(d: u64, a: u32) -> int {
    d + (d / 10) * (a % 3)
}

impl Backoff {
    #[verifier::type_invariant]
    spec fn wf(self) -> bool {
        0 < self.next_delay_ms <= BACKOFF_MAX_MS
    }

    /// Delays handed out since the last reset.
    pub closed spec fn attempts(self) -> u32 {
        self.attempts
    }

    /// The base of the next delay.
    pub closed spec fn base_delay_ms(self) -> u64 {
        self.next_delay_ms
    }

    pub fn new() -> (b: Self)
        ensures
            b.attempts() == 0,
            b.base_delay_ms() == BACKOFF_BASE_MS,
    {
        Backoff { attempts: 0, next_delay_ms: BACKOFF_BASE_MS }
    }

    /// The next reconnection delay. The base delay then doubles, up to
    /// `BACKOFF_MAX_MS`.
    pub fn next_delay(&mut self) -> (d: Duration)
        requires
            old(self).attempts() < u32::MAX,
        ensures
            d == duration_of_millis(
                jittered_delay(old(self).base_delay_ms(), old(self).attempts()) as u64,
            ),
            final(self).attempts() == old(self).attempts() + 1,
            final(self).base_delay_ms() == doubled_delay(old(self).base_delay_ms()),
    {
        proof {
            use_type_invariant(&*self);
        }
        let tenth = self.next_delay_ms / 10;
        let step = self.attempts as u64 % 3;
        assert(tenth * step <= 6000) by (nonlinear_arith)
            requires
                tenth <= 3000,
                step < 3,
        ;
        let jitter = tenth * step;
        let delay = self.next_delay_ms + jitter;
        self.attempts = self.attempts + 1;
        let twice = self.next_delay_ms * 2;
        self.next_delay_ms = if twice < BACKOFF_MAX_MS {
            twice
        } else {
            BACKOFF_MAX_MS
        };
        millis(delay)
    }

    /// Delays handed out since the last reset.
    pub fn attempt_count(&self) -> (n: u32)
        ensures
            n == self.attempts(),
    {
        self.attempts
    }

    /// The base of the next delay, in milliseconds; never above
    /// `BACKOFF_MAX_MS`.
    pub fn next_delay_base_ms(&self) -> (d: u64)
        ensures
            d == self.base_delay_ms(),
            0 < d <= BACKOFF_MAX_MS,
    {
        proof {
            use_type_invariant(self);
        }
        self.next_delay_ms
    }

    /// Back to the first delay.
    pub fn reset(&mut self)
        ensures
            final(self).attempts() == 0,
            final(self).base_delay_ms() == BACKOFF_BASE_MS,
    {
        proof {
            use_type_invariant(&*self);
        }
        self.attempts = 0;
        self.next_delay_ms = BACKOFF_BASE_MS;
    }
}

impl Default for Backoff {
    fn default() -> (b: Self)
        ensures
            b.attempts() == 0,
            b.base_delay_ms() == BACKOFF_BASE_MS,
    {
        Backoff::new()
    }
}

// ===================== Timeouts =====================
/// An operation timeout that doubles after each timeout, up to a maximum,
/// and falls back to its base after a success.
#[derive(Debug, Clone, Copy)]
pub struct TimeoutHandler {
    current_ms: u64,
    base_ms: u64,
    max_ms: u64,
}

impl TimeoutHandler {
    #[verifier::type_invariant]
    spec fn wf(self) -> bool {
        &&& self.base_ms == BASE_TIMEOUT_MS
        &&& self.max_ms == MAX_TIMEOUT_MS
        &&& self.current_ms <= MAX_TIMEOUT_MS
    }

    /// The current timeout, in milliseconds.
    pub closed spec fn current_ms(self) -> u64 {
        self.current_ms
    }

    /// The current timeout in milliseconds; never above `MAX_TIMEOUT_MS`.
    pub fn timeout_ms(&self) -> (t: u64)
        ensures
            t == self.current_ms(),
            t <= MAX_TIMEOUT_MS,
    {
        proof {
            use_type_invariant(self);
        }
        self.current_ms
    }

    pub fn new() -> (t: Self)
        ensures
            t.current_ms() == BASE_TIMEOUT_MS,
    {
        TimeoutHandler { current_ms: BASE_TIMEOUT_MS, base_ms: BASE_TIMEOUT_MS, max_ms: MAX_TIMEOUT_MS }
    }

    pub fn timeout(&self) -> (d: Duration)
        ensures
            d == duration_of_millis(self.current_ms()),
    {
        millis(self.current_ms)
    }

    /// Doubles the timeout, up to the maximum.
    pub fn on_timeout(&mut self)
        ensures
            final(self).current_ms() == if old(self).current_ms() * 2 < MAX_TIMEOUT_MS {
                old(self).current_ms() * 2
            } else {
                MAX_TIMEOUT_MS as int
            },
    {
        proof {
            use_type_invariant(&*self);
        }
        let twice = self.current_ms * 2;
        self.current_ms = if twice < self.max_ms {
            twice
        } else {
            self.max_ms
        };
    }

    /// Back to the base timeout.
    pub fn on_success(&mut self)
        ensures
            final(self).current_ms() == BASE_TIMEOUT_MS,
    {
        proof {
            use_type_invariant(&*self);
        }
        self.current_ms = self.base_ms;
    }

    pub fn is_at_max(&self) -> (b: bool)
        ensures
            b == (self.current_ms() >= MAX_TIMEOUT_MS),
    {
        proof {
            use_type_invariant(self);
        }
        self.current_ms >= self.max_ms
    }
}

impl Default for TimeoutHandler {
    fn default() -> (t: Self)
        ensures
            t.current_ms() == BASE_TIMEOUT_MS,
    {
        TimeoutHandler::new()
    }
}

// ===================== Operation queue =====================
/// A queue of pending operations with a limit on how many run at once.
pub struct OperationQueue<T> {
    pending: VecDeque<T>,
    in_flight: usize,
    max_in_flight: usize,
}

impl<T> OperationQueue<T> {
    #[verifier::type_invariant]
    spec fn wf(self) -> bool {
        self.in_flight <= self.max_in_flight
    }

    /// The operations waiting to start, oldest first.
    pub closed spec fn pending(self) -> Seq<T> {
        self.pending@
    }

    /// The number of operations running.
    pub closed spec fn in_flight(self) -> usize {
        self.in_flight
    }

    /// The most operations that may run at once.
    pub closed spec fn limit(self) -> usize {
        self.max_in_flight
    }

    pub fn new(max_in_flight: usize) -> (q: Self)
        ensures
            q.pending() == Seq::<T>::empty(),
            q.in_flight() == 0,
            q.limit() == max_in_flight,
    {
        OperationQueue { pending: VecDeque::new(), in_flight: 0, max_in_flight }
    }

    /// Queues `op` behind the others.
    pub fn push(&mut self, op: T)
        ensures
            final(self).pending() == old(self).pending().push(op),
            final(self).in_flight() == old(self).in_flight(),
            final(self).limit() == old(self).limit(),
    {
        proof {
            use_type_invariant(&*self);
        }
        let mut pending = VecDeque::new();
        std::mem::swap(&mut pending, &mut self.pending);
        pending.push_back(op);
        self.pending = pending;
    }

    /// Starts the oldest pending operation if fewer than the limit run.
    pub fn pop_if_ready(&mut self) -> (r: Option<T>)
        ensures
            final(self).limit() == old(self).limit(),
            final(self).in_flight() <= final(self).limit(),
            if old(self).in_flight() < old(self).limit() && old(self).pending().len() > 0 {
                &&& r == Some(old(self).pending()[0])
                &&& final(self).pending() == old(self).pending().drop_first()
                &&& final(self).in_flight() == old(self).in_flight() + 1
            } else {
                &&& r is None
                &&& final(self).pending() == old(self).pending()
                &&& final(self).in_flight() == old(self).in_flight()
            },
    {
        proof {
            use_type_invariant(&*self);
        }
        if self.in_flight >= self.max_in_flight {
            return None;
        }
        let mut pending = VecDeque::new();
        std::mem::swap(&mut pending, &mut self.pending);
        let front = pending.pop_front();
        self.pending = pending;
        match front {
            Some(op) => {
                self.in_flight = self.in_flight + 1;
                assert(self.pending@ =~= old(self).pending@.drop_first());
                Some(op)
            },
            None => None,
        }
    }

    /// Marks one running operation as done; no effect when none runs.
    pub fn complete(&mut self)
        ensures
            final(self).pending() == old(self).pending(),
            final(self).limit() == old(self).limit(),
            final(self).in_flight() == if old(self).in_flight() > 0 {
                old(self).in_flight() - 1
            } else {
                0
            },
    {
        proof {
            use_type_invariant(&*self);
        }
        if self.in_flight > 0 {
            self.in_flight = self.in_flight - 1;
        }
    }

    pub fn in_flight_count(&self) -> (n: usize)
        ensures
            n == self.in_flight(),
            n <= self.limit(),
    {
        proof {
            use_type_invariant(self);
        }
        self.in_flight
    }

    pub fn can_start(&self) -> (b: bool)
        ensures
            b == (self.in_flight() < self.limit()),
    {
        self.in_flight < self.max_in_flight
    }

    pub fn pending_count(&self) -> (n: usize)
        ensures
            n == self.pending().len(),
    {
        self.pending.len()
    }

    /// Takes one unit of capacity, without touching the pending operations,
    /// if fewer than the limit run.
    pub fn try_acquire_atomic(&mut self) -> (b: bool)
        ensures
            final(self).pending() == old(self).pending(),
            final(self).limit() == old(self).limit(),
            final(self).in_flight() <= final(self).limit(),
            b == (old(self).in_flight() < old(self).limit()),
            final(self).in_flight() == if b {
                old(self).in_flight() + 1
            } else {
                old(self).in_flight() as int
            },
    {
        proof {
            use_type_invariant(&*self);
        }
        if self.in_flight >= self.max_in_flight {
            return false;
        }
        self.in_flight = self.in_flight + 1;
        true
    }
}

} // verus!
