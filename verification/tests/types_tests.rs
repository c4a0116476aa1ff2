use roboplc_middleware::workers::modbus::types::{
    Backoff, ConnectionState, OperationQueue, TimeoutHandler, BACKOFF_BASE_MS, BACKOFF_MAX_MS,
    BASE_TIMEOUT_MS, MAX_TIMEOUT_MS,
};
use std::time::Duration;

#[derive(Debug, Clone)]
struct TestOperation {
    id: u32,
    #[allow(dead_code)]
    data: i32,
}

#[test]
fn types_backoff_new_starts_at_base_delay() {
    let backoff = Backoff::new();
    assert_eq!(backoff.attempt_count(), 0);
    assert_eq!(backoff.next_delay_base_ms(), BACKOFF_BASE_MS);
}

#[test]
fn types_backoff_next_delay_is_exponential_and_capped() {
    let mut backoff = Backoff::new();
    let d1 = backoff.next_delay();
    let d2 = backoff.next_delay();
    let d3 = backoff.next_delay();
    assert_eq!(d1, Duration::from_millis(100));
    assert_eq!(d2, Duration::from_millis(220));
    assert_eq!(d3, Duration::from_millis(480));
    for _ in 0..20 {
        backoff.next_delay();
    }
    assert!(backoff.next_delay_base_ms() <= BACKOFF_MAX_MS);
}

#[test]
fn types_backoff_reset_restores_initial_state() {
    let mut backoff = Backoff::new();
    let _ = backoff.next_delay();
    let _ = backoff.next_delay();
    backoff.reset();
    assert_eq!(backoff.attempt_count(), 0);
    assert_eq!(backoff.next_delay_base_ms(), BACKOFF_BASE_MS);
}

#[test]
fn types_operation_queue_limits_concurrency_and_tracks_in_flight() {
    let mut queue = OperationQueue::new(2);
    queue.push(TestOperation { id: 1, data: 100 });
    queue.push(TestOperation { id: 2, data: 200 });
    queue.push(TestOperation { id: 3, data: 300 });
    assert_eq!(queue.pending_count(), 3);
    assert_eq!(queue.in_flight_count(), 0);
    assert!(queue.can_start());
    let op1 = queue.pop_if_ready();
    let op2 = queue.pop_if_ready();
    let op3 = queue.pop_if_ready();
    assert!(op1.is_some());
    assert!(op2.is_some());
    assert!(op3.is_none());
    assert_eq!(queue.in_flight_count(), 2);
    assert_eq!(queue.pending_count(), 1);
    assert!(!queue.can_start());
}

#[test]
fn types_operation_queue_complete_allows_next_queued_operation() {
    let mut queue = OperationQueue::new(1);
    queue.push(TestOperation { id: 1, data: 100 });
    queue.push(TestOperation { id: 2, data: 200 });
    let first = queue.pop_if_ready();
    let blocked = queue.pop_if_ready();
    assert!(first.is_some());
    assert!(blocked.is_none());
    assert_eq!(queue.in_flight_count(), 1);
    assert_eq!(queue.pending_count(), 1);
    queue.complete();
    let second = queue.pop_if_ready();
    assert!(second.is_some());
    assert_eq!(queue.in_flight_count(), 1);
    assert_eq!(queue.pending_count(), 0);
}

#[test]
fn types_operation_queue_complete_is_saturating_at_zero() {
    let mut queue: OperationQueue<TestOperation> = OperationQueue::new(1);
    queue.complete();
    assert_eq!(queue.in_flight_count(), 0);
    queue.push(TestOperation { id: 1, data: 100 });
    let _ = queue.pop_if_ready();
    assert_eq!(queue.in_flight_count(), 1);
    queue.complete();
    queue.complete();
    assert_eq!(queue.in_flight_count(), 0);
}

#[test]
fn operation_queue_pop_if_ready_returns_none_on_empty_queue() {
    let mut queue: OperationQueue<TestOperation> = OperationQueue::new(2);
    let result = queue.pop_if_ready();
    assert!(result.is_none());
    assert_eq!(queue.in_flight_count(), 0);
}

#[test]
fn operation_queue_maintains_fifo_order() {
    let mut queue = OperationQueue::new(3);
    queue.push(TestOperation { id: 1, data: 100 });
    queue.push(TestOperation { id: 2, data: 200 });
    queue.push(TestOperation { id: 3, data: 300 });
    let op1 = queue.pop_if_ready();
    let op2 = queue.pop_if_ready();
    let op3 = queue.pop_if_ready();
    assert_eq!(op1.unwrap().id, 1);
    assert_eq!(op2.unwrap().id, 2);
    assert_eq!(op3.unwrap().id, 3);
}

#[test]
fn operation_queue_new_with_zero_capacity() {
    let mut queue: OperationQueue<TestOperation> = OperationQueue::new(0);
    queue.push(TestOperation { id: 1, data: 100 });
    let result = queue.pop_if_ready();
    assert!(result.is_none());
    assert_eq!(queue.pending_count(), 1);
}

#[test]
fn operation_queue_full_cycle() {
    let mut queue = OperationQueue::new(2);
    queue.push(TestOperation { id: 1, data: 100 });
    queue.push(TestOperation { id: 2, data: 200 });
    queue.push(TestOperation { id: 3, data: 300 });
    queue.push(TestOperation { id: 4, data: 400 });
    let op1 = queue.pop_if_ready();
    let op2 = queue.pop_if_ready();
    assert_eq!(op1.unwrap().id, 1);
    assert_eq!(op2.unwrap().id, 2);
    queue.complete();
    let op3 = queue.pop_if_ready();
    assert_eq!(op3.unwrap().id, 3);
    queue.complete();
    queue.complete();
    let op4 = queue.pop_if_ready();
    assert_eq!(op4.unwrap().id, 4);
    queue.complete();
    queue.complete();
    assert_eq!(queue.in_flight_count(), 0);
    assert_eq!(queue.pending_count(), 0);
}

#[test]
fn test_cas_retry_limit() {
    let mut queue = OperationQueue::<i32>::new(1);
    let mut success_count = 0;
    for _ in 0..1000 {
        if queue.try_acquire_atomic() {
            success_count += 1;
        }
    }
    assert_eq!(success_count, 1);
}

#[test]
fn timeout_handler_doubles_until_max_and_resets() {
    let mut t = TimeoutHandler::new();
    assert_eq!(t.timeout(), Duration::from_millis(BASE_TIMEOUT_MS));
    t.on_timeout();
    assert_eq!(t.timeout_ms(), 2000);
    for _ in 0..10 {
        t.on_timeout();
    }
    assert_eq!(t.timeout_ms(), MAX_TIMEOUT_MS);
    assert!(t.is_at_max());
    t.on_success();
    assert_eq!(t.timeout(), Duration::from_millis(1000));
    assert!(!t.is_at_max());
}

#[test]
fn connection_state_compares_by_variant() {
    assert_eq!(ConnectionState::Connected, ConnectionState::Connected);
    assert_ne!(ConnectionState::Connected, ConnectionState::Connecting);
}

#[test]
fn timeout_handler_doubles_on_timeout_until_max() {
    let mut handler = TimeoutHandler::new();
    assert_eq!(handler.timeout(), Duration::from_millis(BASE_TIMEOUT_MS));
    for _ in 0..10 {
        handler.on_timeout();
    }
    assert_eq!(handler.timeout(), Duration::from_millis(MAX_TIMEOUT_MS));
    assert!(handler.is_at_max());
}

#[test]
fn timeout_handler_resets_to_base_after_success() {
    let mut handler = TimeoutHandler::new();
    handler.on_timeout();
    handler.on_timeout();
    assert!(handler.timeout() > Duration::from_millis(BASE_TIMEOUT_MS));
    handler.on_success();
    assert_eq!(handler.timeout(), Duration::from_millis(BASE_TIMEOUT_MS));
    assert!(!handler.is_at_max());
}
