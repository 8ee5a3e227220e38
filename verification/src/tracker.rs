//! Per-instance runtime metrics: request and error counts, a rolling window
//! of recent latencies, the last-used timestamp, and accumulated token usage.

use crate::types::{spec_sat_add_u32, TokenUsage};
use vstd::prelude::*;

verus! {

/// How many recent latencies the rolling window keeps.
pub const RESPONSE_TIME_WINDOW: usize = 10;

/// Addition on a `u64` that stops at the maximum instead of wrapping.
pub open spec fn spec_sat_add_u64(a: u64, b: u64) -> u64 {
    if a + b <= u64::MAX {
        (a + b) as u64
    } else {
        u64::MAX
    }
}

/// The rolling window after one successful call: the new latency enters at
/// the back, and the oldest entry leaves once the window is full.
pub open spec fn spec_push_evict(times: Seq<u64>, duration: u64) -> Seq<u64> {
    let p = times.push(duration);
    if p.len() > RESPONSE_TIME_WINDOW {
        p.drop_first()
    } else {
        p
    }
}

/// Saturating sum of a latency window.
pub open spec fn spec_sat_sum(s: Seq<u64>) -> u64
    decreases s.len(),
{
    if s.len() == 0 {
        0
    } else {
        spec_sat_add_u64(spec_sat_sum(s.drop_last()), s.last())
    }
}

/// The moving average over a latency window; zero when it is empty.
pub open spec fn spec_avg(s: Seq<u64>) -> u64 {
    if s.len() == 0 {
        0
    } else {
        (spec_sat_sum(s) / (s.len() as u64)) as u64
    }
}

/// The error rate of a tracker, as a whole percentage.
pub open spec fn spec_error_rate(errors: u64, requests: u64) -> u64 {
    if requests > 0 {
        (errors as int * 100 / requests as int) as u64
    } else {
        0
    }
}

/// A tracker as registration creates it: no call seen yet, every counter
/// and the usage at zero.
pub open spec fn spec_zeroed_tracker(t: InstanceTracker) -> bool {
    &&& t.last_used == 0
    &&& t.response_times@ == Seq::<u64>::empty()
    &&& t.request_count == 0
    &&& t.error_count == 0
    &&& t.usage == (TokenUsage { prompt_tokens: 0, completion_tokens: 0, total_tokens: 0 })
}

/// Mutable per-instance metrics. Timestamps and latencies are in
/// milliseconds, as the hosting process measures them.
#[derive(Debug, Clone)]
pub struct InstanceTracker {
    pub last_used: u64,
    pub response_times: Vec<u64>,
    pub request_count: u64,
    pub error_count: u64,
    pub usage: TokenUsage,
}

impl InstanceTracker {
    /// The tracker invariant: errors never outnumber requests, and the
    /// latency window never exceeds its capacity.
    pub open spec fn wf(&self) -> bool {
        &&& self.error_count <= self.request_count
        &&& self.response_times@.len() <= RESPONSE_TIME_WINDOW
    }

    /// A zeroed tracker, created when its instance registers.
    pub fn new(now: u64) -> (r: InstanceTracker)
        ensures
            r.wf(),
            r.last_used == now,
            r.response_times@ == Seq::<u64>::empty(),
            r.request_count == 0,
            r.error_count == 0,
            r.usage == (TokenUsage { prompt_tokens: 0, completion_tokens: 0, total_tokens: 0 }),
    {
        InstanceTracker {
            last_used: now,
            response_times: Vec::new(),
            request_count: 0,
            error_count: 0,
            usage: TokenUsage::new(),
        }
    }

    /// Record one completed call: every call counts and refreshes
    /// `last_used`; a success also enters the latency window, a failure also
    /// counts as an error. Token usage is accounted separately.
    pub fn record_result(&mut self, now: u64, duration_ms: u64, success: bool)
        requires
            old(self).wf(),
        ensures
            final(self).wf(),
            final(self).last_used == now,
            final(self).request_count == spec_sat_add_u64(old(self).request_count, 1),
            final(self).usage == old(self).usage,
            success ==> final(self).response_times@ == spec_push_evict(
                old(self).response_times@,
                duration_ms,
            ) && final(self).error_count == old(self).error_count,
            !success ==> final(self).response_times@ == old(self).response_times@
                && final(self).error_count == spec_sat_add_u64(old(self).error_count, 1),
    {
        self.last_used = now;
        self.request_count = self.request_count.saturating_add(1);
        if success {
            self.response_times.push(duration_ms);
            if self.response_times.len() > RESPONSE_TIME_WINDOW {
                self.response_times.remove(0);
            }
        } else {
            self.error_count = self.error_count.saturating_add(1);
        }
    }

    /// Fold one successful call's token usage into the running totals.
    pub fn add_usage(&mut self, u: &TokenUsage)
        ensures
            final(self).last_used == old(self).last_used,
            final(self).response_times == old(self).response_times,
            final(self).request_count == old(self).request_count,
            final(self).error_count == old(self).error_count,
            final(self).usage.prompt_tokens == spec_sat_add_u32(
                old(self).usage.prompt_tokens,
                u.prompt_tokens,
            ),
            final(self).usage.completion_tokens == spec_sat_add_u32(
                old(self).usage.completion_tokens,
                u.completion_tokens,
            ),
            final(self).usage.total_tokens == spec_sat_add_u32(
                old(self).usage.total_tokens,
                u.total_tokens,
            ),
    {
        self.usage.add(u);
    }

    /// The moving average latency over the rolling window.
    pub fn avg_response_time(&self) -> (r: u64)
        ensures
            r == spec_avg(self.response_times@),
    {
        let n = self.response_times.len();
        if n == 0 {
            return 0;
        }
        let mut sum: u64 = 0;
        let mut i: usize = 0;
        while i < n
            invariant
                n == self.response_times@.len(),
                i <= n,
                sum == spec_sat_sum(self.response_times@.take(i as int)),
            decreases n - i,
        {
            proof {
                assert(self.response_times@.take(i as int + 1).drop_last() =~= self.response_times@
                    .take(i as int));
            }
            sum = sum.saturating_add(self.response_times[i]);
            i = i + 1;
        }
        proof {
            assert(self.response_times@.take(n as int) =~= self.response_times@);
        }
        sum / (n as u64)
    }

    /// The error rate as a whole percentage, zero before any request.
    pub fn get_error_rate(&self) -> (r: u64)
        requires
            self.wf(),
        ensures
            r == spec_error_rate(self.error_count, self.request_count),
            r <= 100,
    {
        if self.request_count > 0 {
            let e = self.error_count as u128;
            let q = self.request_count as u128;
            let rate = e * 100 / q;
            proof {
                assert(e as int * 100 / q as int <= 100) by (nonlinear_arith)
                    requires
                        e <= q,
                        q > 0,
                ;
                assert(e as int * 100 / q as int == self.error_count as int * 100
                    / self.request_count as int);
            }
            rate as u64
        } else {
            0
        }
    }
}

} // verus!
