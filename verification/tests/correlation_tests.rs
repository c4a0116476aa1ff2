use roboplc_middleware::correlation::{next_correlation_id, CorrelationCounter};
use std::collections::HashSet;

#[test]
fn correlation_ids_are_unique() {
    let mut counter = CorrelationCounter::new();
    let mut ids = HashSet::new();
    for _ in 0..10000 {
        assert!(ids.insert(next_correlation_id(&mut counter)));
    }
}

#[test]
fn correlation_ids_start_at_one() {
    let mut counter = CorrelationCounter::new();
    let id = next_correlation_id(&mut counter);
    assert!(id > 0);
    assert_eq!(id, 1);
}

#[test]
fn correlation_ids_are_monotonic() {
    let mut counter = CorrelationCounter::new();
    let id1 = next_correlation_id(&mut counter);
    let id2 = next_correlation_id(&mut counter);
    let id3 = next_correlation_id(&mut counter);
    assert!(id2 > id1);
    assert!(id3 > id2);
}

#[test]
fn correlation_counter_wraps_after_max() {
    let mut counter = CorrelationCounter::starting_at(u64::MAX);
    assert_eq!(next_correlation_id(&mut counter), u64::MAX);
    assert_eq!(next_correlation_id(&mut counter), 0);
}

#[test]
fn rpc_correlation_ids_start_at_zero() {
    let mut counter = CorrelationCounter::starting_at(0);
    assert_eq!(roboplc_middleware::workers::rpc::handler::next_correlation_id(&mut counter), 0);
    assert_eq!(roboplc_middleware::workers::rpc::handler::next_correlation_id(&mut counter), 1);
}

#[test]
fn heartbeat_worker_correlation_id_increments() {
    let mut counter = CorrelationCounter::new();
    let id1 = next_correlation_id(&mut counter);
    let id2 = next_correlation_id(&mut counter);
    assert!(id2 > id1);
}
