//! Tests for load balancing strategies.

use flyllm::{
    InstanceTracker, LeastRecentlyUsedStrategy, LowestLatencyStrategy, RandomStrategy,
};

#[test]
fn test_lru_strategy_creation() {
    // Just verify that creation doesn't panic
    let _strategy = LeastRecentlyUsedStrategy::new();
}

#[test]
fn test_lowest_latency_strategy_creation() {
    let _strategy = LowestLatencyStrategy::new();
}

#[test]
fn test_random_strategy_creation() {
    let _strategy = RandomStrategy::new();
}

fn tracker_with(last_used: u64, latencies: &[u64]) -> InstanceTracker {
    let mut t = InstanceTracker::new(last_used);
    for &d in latencies {
        t.record_result(last_used, d, true);
    }
    t
}

#[test]
fn test_lru_picks_oldest_with_ties_to_first() {
    let trackers = vec![
        tracker_with(50, &[]),
        tracker_with(10, &[]),
        tracker_with(10, &[]),
        tracker_with(30, &[]),
    ];
    let candidates = vec![0usize, 1, 2, 3];
    let strategy = LeastRecentlyUsedStrategy::new();
    // index 1 and 2 tie on the oldest stamp; the earlier candidate wins
    assert_eq!(strategy.select_instance(&trackers, &candidates), 1);
}

#[test]
fn test_lru_respects_candidate_subset() {
    let trackers = vec![tracker_with(1, &[]), tracker_with(2, &[]), tracker_with(3, &[])];
    let candidates = vec![2usize, 1];
    let strategy = LeastRecentlyUsedStrategy::new();
    // among candidates [2, 1], instance 1 has the older stamp; its position is 1
    assert_eq!(strategy.select_instance(&trackers, &candidates), 1);
}

#[test]
fn test_lowest_latency_picks_smallest_average() {
    let trackers = vec![
        tracker_with(0, &[300, 300]),
        tracker_with(0, &[100, 200]),
        tracker_with(0, &[500]),
    ];
    let candidates = vec![0usize, 1, 2];
    let strategy = LowestLatencyStrategy::new();
    assert_eq!(strategy.select_instance(&trackers, &candidates), 1);
}

#[test]
fn test_lowest_latency_empty_window_reads_zero() {
    let trackers = vec![tracker_with(0, &[100]), tracker_with(0, &[])];
    let candidates = vec![0usize, 1];
    let strategy = LowestLatencyStrategy::new();
    // the fresh instance reports zero latency and wins
    assert_eq!(strategy.select_instance(&trackers, &candidates), 1);
}

#[test]
fn test_random_stays_in_range() {
    let trackers = vec![tracker_with(0, &[]), tracker_with(0, &[]), tracker_with(0, &[])];
    let candidates = vec![0usize, 1, 2];
    let strategy = RandomStrategy::new();
    for _ in 0..50 {
        let picked = strategy.select_instance(&trackers, &candidates);
        assert!(picked < candidates.len());
    }
}

#[test]
fn test_random_single_candidate() {
    let trackers = vec![tracker_with(0, &[])];
    let candidates = vec![0usize];
    let strategy = RandomStrategy::new();
    assert_eq!(strategy.select_instance(&trackers, &candidates), 0);
}
