//! The rolling window of latency samples kept for each device.

use std::collections::VecDeque;
use vstd::prelude::*;

verus! {

/// How many of the latest samples a window keeps.
pub const LATENCY_WINDOW: usize = 100;

/// How many samples a window needs before it can flag an anomaly.
pub const MIN_ANOMALY_SAMPLES: usize = 10;

/// `s` after the oldest samples beyond the window size are dropped from a
/// window that had room for all but one of them.
pub open spec fn keep_latest(s: Seq<u64>) -> Seq<u64> {
    if s.len() > LATENCY_WINDOW {
        s.drop_first()
    } else {
        s
    }
}

/// The window after `samples` are added one by one to an empty window.
pub open spec fn window_after(samples: Seq<u64>) -> Seq<u64>
    decreases samples.len(),
{
    if samples.len() == 0 {
        Seq::empty()
    } else {
        keep_latest(window_after(samples.drop_last()).push(samples.last()))
    }
}

/// The latest latency samples of a device, oldest first, at most
/// [`LATENCY_WINDOW`] of them.
#[derive(Debug)]
pub struct LatencyWindow {
    samples: VecDeque<u64>,
}

impl LatencyWindow {
    #[verifier::type_invariant]
    spec fn wf(self) -> bool {
        self.samples@.len() <= LATENCY_WINDOW
    }

    pub closed spec fn window(self) -> Seq<u64> {
        self.samples@
    }

    pub fn new() -> (w: Self)
        ensures
            w.window() == Seq::<u64>::empty(),
    {
        LatencyWindow { samples: VecDeque::new() }
    }

    /// Adds a sample; when the window is full the oldest one leaves.
    pub fn add_sample(&mut self, latency_us: u64)
        ensures
            final(self).window() == keep_latest(old(self).window().push(latency_us)),
            final(self).window().len() <= LATENCY_WINDOW,
    {
        proof {
            use_type_invariant(&*self);
        }
        let mut samples = VecDeque::new();
        std::mem::swap(&mut samples, &mut self.samples);
        if samples.len() >= LATENCY_WINDOW {
            samples.pop_front();
        }
        samples.push_back(latency_us);
        proof {
            if old(self).samples@.len() >= LATENCY_WINDOW {
                assert(samples@ =~= old(self).samples@.push(latency_us).drop_first());
            }
        }
        self.samples = samples;
    }

    pub fn len(&self) -> (n: usize)
        ensures
            n == self.window().len(),
            n <= LATENCY_WINDOW,
    {
        proof {
            use_type_invariant(self);
        }
        self.samples.len()
    }

    /// Whether enough samples are kept to judge a new one.
    pub fn has_enough_samples(&self) -> (b: bool)
        ensures
            b == (self.window().len() >= MIN_ANOMALY_SAMPLES),
    {
        self.samples.len() >= MIN_ANOMALY_SAMPLES
    }

    /// The samples kept, oldest first.
    pub fn samples(&self) -> (v: Vec<u64>)
        ensures
            v@ == self.window(),
    {
        let mut out: Vec<u64> = Vec::new();
        let mut i: usize = 0;
        while i < self.samples.len()
            invariant
                i <= self.samples@.len(),
                out@ == self.samples@.take(i as int),
            decreases self.samples.len() - i,
        {
            out.push(self.samples[i]);
            assert(out@ =~= self.samples@.take(i + 1));
            i = i + 1;
        }
        assert(out@ =~= self.samples@);
        out
    }
}

/// A window keeps exactly the latest samples: after any samples are added
/// to an empty window, it holds the last [`LATENCY_WINDOW`] of them (all of
/// them when there are fewer).
pub proof fn lemma_window_keeps_latest(samples: Seq<u64>)
    ensures
        window_after(samples) == if samples.len() > LATENCY_WINDOW {
            samples.skip(samples.len() - LATENCY_WINDOW)
        } else {
            samples
        },
    decreases samples.len(),
{
    if samples.len() > 0 {
        let prefix = samples.drop_last();
        lemma_window_keeps_latest(prefix);
        if prefix.len() > LATENCY_WINDOW {
            assert(prefix.skip(prefix.len() - LATENCY_WINDOW).push(samples.last()).drop_first()
                =~= samples.skip(samples.len() - LATENCY_WINDOW));
        } else if prefix.len() == LATENCY_WINDOW {
            assert(prefix.push(samples.last()).drop_first() =~= samples.skip(
                samples.len() - LATENCY_WINDOW,
            ));
        } else {
            assert(prefix.push(samples.last()) =~= samples);
        }
    }
}

} // verus!
