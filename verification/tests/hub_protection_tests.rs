use roboplc_middleware::hub_protection::{
    default_hub_send_timeout, HUB_SEND_POOL_SIZE, HUB_SEND_QUEUE_CAPACITY,
};
use std::time::Duration;

#[test]
fn default_timeout_is_reasonable() {
    assert!(default_hub_send_timeout() >= Duration::from_millis(100));
    assert!(default_hub_send_timeout() <= Duration::from_secs(1));
}

#[test]
fn hub_send_pool_size_is_valid() {
    assert!(HUB_SEND_POOL_SIZE >= 1);
    assert!(HUB_SEND_POOL_SIZE <= 16);
}

#[test]
fn hub_send_queue_capacity_is_valid() {
    assert!(HUB_SEND_QUEUE_CAPACITY >= 64);
    assert!(HUB_SEND_QUEUE_CAPACITY <= 1024);
}

#[test]
fn default_hub_send_timeout_is_half_a_second() {
    assert_eq!(default_hub_send_timeout(), Duration::from_millis(500));
}
