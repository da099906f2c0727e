//! Fixed-bucket latency counters for one traffic dimension (an endpoint
//! or the aggregate across all endpoints).

use vstd::prelude::*;

verus! {

/// Counts of completed requests bucketed by elapsed wall-clock duration in
/// milliseconds: `[0,10]`, `(10,100]`, `(100,250]`, `(250,500]`, `(500,1000]`,
/// `(1000,∞)`; plus the running total and the timestamp (microseconds since
/// the Unix epoch) of the most recent observation, absent if never updated.
#[derive(Clone, Copy, Debug)]
pub struct Histogram {
    pub count_0_10: u64,
    pub count_11_100: u64,
    pub count_101_250: u64,
    pub count_251_500: u64,
    pub count_501_1000: u64,
    pub count_1000_plus: u64,
    pub total_requests: u64,
    pub last_request_time: Option<i64>,
}

impl Histogram {
    /// The histogram with no observations.
    pub open spec fn empty() -> Histogram {
        Histogram {
            count_0_10: 0,
            count_11_100: 0,
            count_101_250: 0,
            count_251_500: 0,
            count_501_1000: 0,
            count_1000_plus: 0,
            total_requests: 0,
            last_request_time: None,
        }
    }

    /// Well-formedness: the six bucket counts sum exactly to the total.
    pub open spec fn wf(self) -> bool {
        self.total_requests == self.count_0_10 + self.count_11_100 + self.count_101_250
            + self.count_251_500 + self.count_501_1000 + self.count_1000_plus
    }

    /// Which bucket a duration of `millis` milliseconds falls into,
    /// as an offset from 0 (the `[0,10]` bucket) to 5 (the unbounded one).
    /// Each named range is inclusive on its upper bound.
    pub open spec fn bucket_of(millis: u128) -> int {
        if millis <= 10 {
            0
        } else if millis <= 100 {
            1
        } else if millis <= 250 {
            2
        } else if millis <= 500 {
            3
        } else if millis <= 1000 {
            4
        } else {
            5
        }
    }

    /// The histogram after recording one observation of `millis` milliseconds
    /// at time `timestamp`: exactly one bucket and the total are incremented,
    /// and the last-request time is overwritten unconditionally.
    pub open spec fn spec_add(self, millis: u128, timestamp: i64) -> Histogram {
        Histogram {
            count_0_10: if Self::bucket_of(millis) == 0 {
                (self.count_0_10 + 1) as u64
            } else {
                self.count_0_10
            },
            count_11_100: if Self::bucket_of(millis) == 1 {
                (self.count_11_100 + 1) as u64
            } else {
                self.count_11_100
            },
            count_101_250: if Self::bucket_of(millis) == 2 {
                (self.count_101_250 + 1) as u64
            } else {
                self.count_101_250
            },
            count_251_500: if Self::bucket_of(millis) == 3 {
                (self.count_251_500 + 1) as u64
            } else {
                self.count_251_500
            },
            count_501_1000: if Self::bucket_of(millis) == 4 {
                (self.count_501_1000 + 1) as u64
            } else {
                self.count_501_1000
            },
            count_1000_plus: if Self::bucket_of(millis) == 5 {
                (self.count_1000_plus + 1) as u64
            } else {
                self.count_1000_plus
            },
            total_requests: (self.total_requests + 1) as u64,
            last_request_time: Some(timestamp),
        }
    }

    /// A histogram with no observations.
    pub fn new() -> (h: Histogram)
        ensures
            h == Histogram::empty(),
            h.wf(),
    {
        Histogram {
            count_0_10: 0,
            count_11_100: 0,
            count_101_250: 0,
            count_251_500: 0,
            count_501_1000: 0,
            count_1000_plus: 0,
            total_requests: 0,
            last_request_time: None,
        }
    }

    /// Whether the histogram has recorded nothing at all.
    pub fn is_empty(&self) -> (r: bool)
        ensures
            r == (*self == Histogram::empty()),
    {
        self.count_0_10 == 0 && self.count_11_100 == 0 && self.count_101_250 == 0
            && self.count_251_500 == 0 && self.count_501_1000 == 0 && self.count_1000_plus == 0
            && self.total_requests == 0 && self.last_request_time.is_none()
    }

    /// Record one observation: `millis` of elapsed time, completed at
    /// `timestamp` (microseconds since the Unix epoch). Exactly one bucket
    /// is incremented, the total is incremented, and the last-request time
    /// is set to `timestamp` regardless of its prior value.
    pub fn add(&mut self, millis: u128, timestamp: i64)
        requires
            old(self).wf(),
            old(self).total_requests < u64::MAX,
        ensures
            *final(self) == old(self).spec_add(millis, timestamp),
            final(self).wf(),
            final(self).total_requests == old(self).total_requests + 1,
            final(self).last_request_time == Some(timestamp),
    {
        if millis <= 10 {
            self.count_0_10 = self.count_0_10 + 1;
        } else if millis <= 100 {
            self.count_11_100 = self.count_11_100 + 1;
        } else if millis <= 250 {
            self.count_101_250 = self.count_101_250 + 1;
        } else if millis <= 500 {
            self.count_251_500 = self.count_251_500 + 1;
        } else if millis <= 1000 {
            self.count_501_1000 = self.count_501_1000 + 1;
        } else {
            self.count_1000_plus = self.count_1000_plus + 1;
        }
        self.total_requests = self.total_requests + 1;
        self.last_request_time = Some(timestamp);
    }
}

/// A histogram after a whole sequence of observations, each a pair of an
/// elapsed time in milliseconds and a completion timestamp, recorded in
/// order.
pub open spec fn apply_adds(h: Histogram, obs: Seq<(u128, i64)>) -> Histogram
    decreases obs.len(),
{
    if obs.len() == 0 {
        h
    } else {
        apply_adds(h, obs.drop_last()).spec_add(obs.last().0, obs.last().1)
    }
}

/// Law: for every sequence of recorded durations, the six bucket counts sum
/// exactly to the total (and the total grows by one per observation).
pub proof fn lemma_bucket_sum_invariant(h: Histogram, obs: Seq<(u128, i64)>)
    requires
        h.wf(),
        h.total_requests + obs.len() <= u64::MAX,
    ensures
        apply_adds(h, obs).wf(),
        apply_adds(h, obs).total_requests == h.total_requests + obs.len(),
    decreases obs.len(),
{
    if obs.len() > 0 {
        lemma_bucket_sum_invariant(h, obs.drop_last());
    }
}

/// Law: after any non-empty sequence of recorded observations, the
/// last-request time is the timestamp of the most recent one, whatever
/// bucket it fell into.
pub proof fn lemma_last_request_time(h: Histogram, obs: Seq<(u128, i64)>)
    requires
        obs.len() > 0,
    ensures
        apply_adds(h, obs).last_request_time == Some(obs.last().1),
{
}

impl Default for Histogram {
    /// The histogram with no observations.
    fn default() -> (h: Histogram)
        ensures
            h == Histogram::empty(),
            h.wf(),
    {
        Histogram::new()
    }
}

} // verus!
