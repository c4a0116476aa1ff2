use roboplc_middleware::workers::http::{
    cache_age_ms, cache_miss_message, health_summary, is_fresh, is_fresh_for_http,
    parse_signal_groups, stream_groups, HealthStatus,
};
use roboplc_middleware::workers::sse::{
    admit_connection, heartbeat_due, SseConnection, SseConnectionId, SseCounters, SseIdCounter,
    SendOutcome, SseRegistry,
    MAX_SSE_CONNECTIONS,
};

#[test]
fn health_follows_connected_devices() {
    let h = health_summary(&[]);
    assert_eq!((h.status, h.total, h.connected, h.disconnected), (HealthStatus::Unhealthy, 0, 0, 0));
    let h = health_summary(&[true, true]);
    assert_eq!(h.status, HealthStatus::Healthy);
    assert_eq!(h.status.as_str(), "healthy");
    let h = health_summary(&[true, false, true]);
    assert_eq!((h.status, h.connected, h.disconnected), (HealthStatus::Degraded, 2, 1));
    assert_eq!(h.status.as_str(), "degraded");
    let h = health_summary(&[false, false]);
    assert_eq!(h.status.as_str(), "unhealthy");
}

#[test]
fn cache_freshness() {
    assert_eq!(cache_age_ms(1_000, 990), 10);
    assert_eq!(cache_age_ms(1_000, 2_000), 0);
    assert!(is_fresh_for_http(49));
    assert!(!is_fresh_for_http(50));
    assert!(is_fresh(1000, 1000));
    assert!(!is_fresh(1001, 1000));
    assert_eq!(
        cache_miss_message("plc-1", "temps"),
        "Cache miss: no data found for device 'plc-1' and signal group 'temps'"
    );
}

#[test]
fn test_sse_stream_groups_with_whitespace() {
    assert_eq!(parse_signal_groups(" a , b,,c ,"), vec!["a".to_string(), "b".to_string(), "c".to_string()]);
    assert_eq!(parse_signal_groups("single"), vec!["single".to_string()]);
    assert!(parse_signal_groups(" , ,").is_empty());
    assert!(parse_signal_groups("").is_empty());
}

#[test]
fn sse_connection_id_creation() {
    let id1 = SseConnectionId::new(1);
    let id2 = SseConnectionId::new(2);
    assert_eq!(id1.value(), 1);
    assert_eq!(id2.value(), 2);
    assert_ne!(id1, id2);
}

#[test]
fn sse_connection_filters_by_device_and_group() {
    let conn = SseConnection::new("plc-1".to_string(), vec!["temps".to_string(), "motor".to_string()], 5, ());
    assert!(conn.is_subscribed_to("temps"));
    assert!(!conn.is_subscribed_to("temp"));
    assert!(conn.receives("plc-1", "motor"));
    assert!(!conn.receives("plc-2", "motor"));
    assert!(!conn.receives("plc-1", "other"));
}

#[test]
fn sse_registry_limit_and_ids() {
    assert!(admit_connection(MAX_SSE_CONNECTIONS - 1).is_ok());
    assert_eq!(
        admit_connection(MAX_SSE_CONNECTIONS).unwrap_err(),
        "Maximum SSE connections limit reached (100). Rejecting new connection."
    );
    let mut ids = SseIdCounter::new();
    assert_eq!(ids.next_id().value(), 0);
    assert_eq!(ids.next_id().value(), 1);
}

#[test]
fn sse_heartbeats_and_counters() {
    assert!(!heartbeat_due(14_999));
    assert!(heartbeat_due(15_000));
    let mut c = SseCounters::new();
    c.record_update(3);
    c.record_update(0);
    assert_eq!((c.messages_received, c.messages_routed), (2, 3));
    let mut w = SseCounters { messages_received: u64::MAX, messages_routed: u64::MAX };
    w.record_update(2);
    assert_eq!((w.messages_received, w.messages_routed), (0, 1));
}

#[test]
fn sse_connection_with_channel() {
    let (tx, _rx) = tokio::sync::mpsc::channel::<u32>(10);
    let conn = SseConnection::new(
        "plc-1".to_string(),
        vec!["temperature".to_string(), "pressure".to_string()],
        1234567890,
        tx,
    );
    assert_eq!(conn.device_id, "plc-1");
    assert_eq!(conn.signal_groups, vec!["temperature", "pressure"]);
    assert_eq!(conn.connected_at, 1234567890);
    assert!(conn.is_subscribed_to("temperature"));
    assert!(conn.is_subscribed_to("pressure"));
    assert!(!conn.is_subscribed_to("humidity"));
}

#[test]
fn sse_worker_creation() {
    let counters = SseCounters::new();
    assert_eq!(counters.messages_received, 0);
    assert_eq!(counters.messages_routed, 0);
}

fn conn(device: &str, groups: &[&str], at: u64) -> SseConnection<u32> {
    SseConnection::new(device.to_string(), groups.iter().map(|g| g.to_string()).collect(), at, at as u32)
}

#[test]
fn sse_connection_registry_send_to_subscribers() {
    let mut registry: SseRegistry<u32> = SseRegistry::new();
    let a = registry.register(conn("plc-1", &["temp", "pressure"], 1000)).unwrap();
    let b = registry.register(conn("plc-1", &["temp"], 2000)).unwrap();
    let _c = registry.register(conn("plc-2", &["temp"], 3000)).unwrap();
    assert_eq!(registry.subscribers("plc-1", "temp"), vec![a, b]);
    assert_eq!(registry.subscribers("plc-1", "pressure"), vec![a]);
    assert!(registry.subscribers("plc-3", "temp").is_empty());
}

#[test]
fn sse_connection_registry_thread_safe_operations() {
    let mut registry: SseRegistry<u32> = SseRegistry::new();
    assert_eq!(registry.count(), 0);
    let id1 = registry.register(conn("plc-1", &["temp"], 1000)).unwrap();
    let id2 = registry.register(conn("plc-2", &["pressure"], 2000)).unwrap();
    assert_ne!(id1, id2);
    assert_eq!(registry.count(), 2);
    assert_eq!(registry.unregister(id1), Some(1000));
    assert_eq!(registry.unregister(id1), None);
    assert_eq!(registry.count(), 1);
    assert_eq!(registry.sender(id2), Some(&2000));
    registry.clear();
    assert_eq!(registry.count(), 0);
}

#[test]
fn sse_connection_registry_large_scale() {
    let mut registry: SseRegistry<u32> = SseRegistry::new();
    let mut ids = Vec::new();
    for i in 0..MAX_SSE_CONNECTIONS {
        ids.push(registry.register(conn("plc-1", &["temp"], i as u64)).unwrap());
    }
    assert_eq!(registry.count(), MAX_SSE_CONNECTIONS);
    let refused = registry.register(conn("plc-1", &["temp"], 500));
    assert_eq!(
        refused,
        Err("Maximum SSE connections limit reached (100). Rejecting new connection.".to_string())
    );
    assert_eq!(registry.count(), MAX_SSE_CONNECTIONS);
    assert_eq!(registry.ids(), ids);
    registry.unregister(ids[0]);
    let fresh = registry.register(conn("plc-1", &["temp"], 600)).unwrap();
    assert_eq!(fresh.value(), 100);
}

#[test]
fn empty_group_lists_are_refused() {
    assert_eq!(stream_groups(""), Err("No signal groups specified".to_string()));
    assert_eq!(stream_groups(" , ,"), Err("No signal groups specified".to_string()));
    assert_eq!(
        stream_groups("  temperature , pressure , humidity "),
        Ok(vec!["temperature".to_string(), "pressure".to_string(), "humidity".to_string()])
    );
}

#[test]
fn broadcast_counts_deliveries_and_drops_closed_streams() {
    let mut registry: SseRegistry<u32> = SseRegistry::new();
    let a = registry.register(conn("plc-1", &["temp", "pressure"], 1000)).unwrap();
    let b = registry.register(conn("plc-1", &["temp"], 2000)).unwrap();
    let c = registry.register(conn("plc-2", &["temp"], 3000)).unwrap();
    let delivered = registry.settle(&[(a, SendOutcome::Delivered), (b, SendOutcome::Closed), (c, SendOutcome::Full)]);
    assert_eq!(delivered, 1);
    assert_eq!(registry.ids(), vec![a, c]);
}

#[test]
fn reopened_streams_never_reuse_an_identifier() {
    let mut registry: SseRegistry<u32> = SseRegistry::new();
    let first = registry.register(conn("plc-1", &["temp"], 1)).unwrap();
    assert_eq!(registry.unregister(first), Some(1));
    let second = registry.register(conn("plc-1", &["temp"], 2)).unwrap();
    let third = registry.register(conn("plc-1", &["temp"], 3)).unwrap();
    assert_ne!(second, first);
    assert_ne!(third, first);
    assert_ne!(third, second);
    assert_eq!((first.value(), second.value(), third.value()), (0, 1, 2));
}
