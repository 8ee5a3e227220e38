//! Load-balancing strategies: given the trackers of the eligible candidates,
//! pick one index into the candidate list.

use crate::tracker::{spec_avg, InstanceTracker};
use vstd::prelude::*;

verus! {

/// The closed set of selection policies.
#[derive(Debug, Clone, Copy, PartialEq, Eq, Structural)]
pub enum StrategyKind {
    LeastRecentlyUsed,
    LowestLatency,
    Random,
}

/// `r` indexes a first minimum of `keys`: no key is smaller, and every
/// earlier key is strictly larger.
pub open spec fn spec_is_first_min(keys: Seq<u64>, r: int) -> bool {
    &&& 0 <= r < keys.len()
    &&& forall|j: int| 0 <= j < keys.len() ==> keys[r] <= #[trigger] keys[j]
    &&& forall|j: int| 0 <= j < r ==> #[trigger] keys[j] > keys[r]
}

/// The `last_used` stamps of the candidates, in candidate order.
pub open spec fn spec_lru_keys(trackers: Seq<InstanceTracker>, candidates: Seq<usize>) -> Seq<u64> {
    candidates.map_values(|c: usize| trackers[c as int].last_used)
}

/// The moving-average latencies of the candidates, in candidate order.
pub open spec fn spec_latency_keys(trackers: Seq<InstanceTracker>, candidates: Seq<usize>) -> Seq<
    u64,
> {
    candidates.map_values(|c: usize| spec_avg(trackers[c as int].response_times@))
}

/// Relies on `rand::random_range`: a uniform draw from `0..n`, which for a
/// non-empty integer range returns a value inside it.
#[verifier::external_body]
fn random_below(n: usize) -> (r: usize)
    requires
        n > 0,
    ensures
        r < n,
{
    rand::random_range(0..n)
}

/// Index of the first minimum of the candidate keys, where a candidate's key
/// is its tracker's `last_used`.
fn select_first_min_by_lru(trackers: &Vec<InstanceTracker>, candidates: &Vec<usize>) -> (r: usize)
    requires
        candidates@.len() > 0,
        forall|i: int| 0 <= i < candidates@.len() ==> #[trigger] candidates@[i] < trackers@.len(),
    ensures
        spec_is_first_min(spec_lru_keys(trackers@, candidates@), r as int),
{
    let ghost keys = spec_lru_keys(trackers@, candidates@);
    let n = candidates.len();
    let mut best: usize = 0;
    let mut best_key: u64 = trackers[candidates[0]].last_used;
    let mut i: usize = 1;
    while i < n
        invariant
            n == candidates@.len(),
            keys == spec_lru_keys(trackers@, candidates@),
            forall|i2: int|
                0 <= i2 < candidates@.len() ==> #[trigger] candidates@[i2] < trackers@.len(),
            1 <= i <= n,
            best < i,
            best_key == keys[best as int],
            forall|j: int| 0 <= j < i ==> best_key <= #[trigger] keys[j],
            forall|j: int| 0 <= j < best ==> #[trigger] keys[j] > best_key,
        decreases n - i,
    {
        let k = trackers[candidates[i]].last_used;
        proof {
            assert(keys[i as int] == trackers@[candidates@[i as int] as int].last_used);
        }
        if k < best_key {
            best = i;
            best_key = k;
        }
        i = i + 1;
    }
    best
}

/// Index of the first minimum of the candidate keys, where a candidate's key
/// is its tracker's moving-average latency.
fn select_first_min_by_latency(trackers: &Vec<InstanceTracker>, candidates: &Vec<usize>) -> (r:
    usize)
    requires
        candidates@.len() > 0,
        forall|i: int| 0 <= i < candidates@.len() ==> #[trigger] candidates@[i] < trackers@.len(),
    ensures
        spec_is_first_min(spec_latency_keys(trackers@, candidates@), r as int),
{
    let ghost keys = spec_latency_keys(trackers@, candidates@);
    let n = candidates.len();
    let mut best: usize = 0;
    let mut best_key: u64 = trackers[candidates[0]].avg_response_time();
    let mut i: usize = 1;
    while i < n
        invariant
            n == candidates@.len(),
            keys == spec_latency_keys(trackers@, candidates@),
            forall|i2: int|
                0 <= i2 < candidates@.len() ==> #[trigger] candidates@[i2] < trackers@.len(),
            1 <= i <= n,
            best < i,
            best_key == keys[best as int],
            forall|j: int| 0 <= j < i ==> best_key <= #[trigger] keys[j],
            forall|j: int| 0 <= j < best ==> #[trigger] keys[j] > best_key,
        decreases n - i,
    {
        let k = trackers[candidates[i]].avg_response_time();
        proof {
            assert(keys[i as int] == spec_avg(
                trackers@[candidates@[i as int] as int].response_times@,
            ));
        }
        if k < best_key {
            best = i;
            best_key = k;
        }
        i = i + 1;
    }
    best
}

/// What each policy guarantees of the index it picks: the least-recently-used
/// and lowest-latency policies pick the first minimum of their key, ties
/// falling to the earliest candidate; the random policy only stays in range.
pub open spec fn spec_selected(
    kind: StrategyKind,
    trackers: Seq<InstanceTracker>,
    candidates: Seq<usize>,
    r: int,
) -> bool {
    &&& 0 <= r < candidates.len()
    &&& kind == StrategyKind::LeastRecentlyUsed ==> spec_is_first_min(
        spec_lru_keys(trackers, candidates),
        r,
    )
    &&& kind == StrategyKind::LowestLatency ==> spec_is_first_min(
        spec_latency_keys(trackers, candidates),
        r,
    )
}

/// Select one index into `candidates` under the given policy.
pub fn select_index(
    kind: StrategyKind,
    trackers: &Vec<InstanceTracker>,
    candidates: &Vec<usize>,
) -> (r: usize)
    requires
        candidates@.len() > 0,
        forall|i: int| 0 <= i < candidates@.len() ==> #[trigger] candidates@[i] < trackers@.len(),
    ensures
        spec_selected(kind, trackers@, candidates@, r as int),
{
    match kind {
        StrategyKind::LeastRecentlyUsed => select_first_min_by_lru(trackers, candidates),
        StrategyKind::LowestLatency => select_first_min_by_latency(trackers, candidates),
        StrategyKind::Random => random_below(candidates.len()),
    }
}

/// The policy that prefers the instance longest unused, spreading steady
/// traffic round-robin and cold-starting fresh instances.
#[derive(Debug)]
pub struct LeastRecentlyUsedStrategy;

impl LeastRecentlyUsedStrategy {
    /// Create the policy value.
    pub fn new() -> (r: LeastRecentlyUsedStrategy) {
        LeastRecentlyUsedStrategy {  }
    }

    /// The policy's tag.
    pub fn kind(&self) -> (r: StrategyKind)
        ensures
            r == StrategyKind::LeastRecentlyUsed,
    {
        StrategyKind::LeastRecentlyUsed
    }

    /// Select the candidate with the oldest `last_used`, earliest first on
    /// ties.
    pub fn select_instance(&self, trackers: &Vec<InstanceTracker>, candidates: &Vec<usize>) -> (r:
        usize)
        requires
            candidates@.len() > 0,
            forall|i: int|
                0 <= i < candidates@.len() ==> #[trigger] candidates@[i] < trackers@.len(),
        ensures
            spec_is_first_min(spec_lru_keys(trackers@, candidates@), r as int),
    {
        select_first_min_by_lru(trackers, candidates)
    }
}

/// The policy that prefers the instance with the lowest moving-average
/// latency; an empty window reads as zero, so new instances win until they
/// acquire data.
#[derive(Debug)]
pub struct LowestLatencyStrategy;

impl LowestLatencyStrategy {
    /// Create the policy value.
    pub fn new() -> (r: LowestLatencyStrategy) {
        LowestLatencyStrategy {  }
    }

    /// The policy's tag.
    pub fn kind(&self) -> (r: StrategyKind)
        ensures
            r == StrategyKind::LowestLatency,
    {
        StrategyKind::LowestLatency
    }

    /// Select the candidate with the lowest average latency, earliest first
    /// on ties.
    pub fn select_instance(&self, trackers: &Vec<InstanceTracker>, candidates: &Vec<usize>) -> (r:
        usize)
        requires
            candidates@.len() > 0,
            forall|i: int|
                0 <= i < candidates@.len() ==> #[trigger] candidates@[i] < trackers@.len(),
        ensures
            spec_is_first_min(spec_latency_keys(trackers@, candidates@), r as int),
    {
        select_first_min_by_latency(trackers, candidates)
    }
}

/// The policy that draws a candidate uniformly at random.
#[derive(Debug)]
pub struct RandomStrategy;

impl RandomStrategy {
    /// Create the policy value.
    pub fn new() -> (r: RandomStrategy) {
        RandomStrategy {  }
    }

    /// The policy's tag.
    pub fn kind(&self) -> (r: StrategyKind)
        ensures
            r == StrategyKind::Random,
    {
        StrategyKind::Random
    }

    /// Select a uniformly random candidate.
    pub fn select_instance(&self, trackers: &Vec<InstanceTracker>, candidates: &Vec<usize>) -> (r:
        usize)
        requires
            candidates@.len() > 0,
        ensures
            r < candidates@.len(),
    {
        let _ = trackers;
        random_below(candidates.len())
    }
}

} // verus!
