use roboplc_middleware::config::{ByteOrder, Device, DeviceType, SignalGroup};
use roboplc_middleware::events::DeviceEventType;
use roboplc_middleware::workers::modbus::state::{ModbusWorkerState, POOL_HEALTH_CHECK_INTERVAL_MS};
use roboplc_middleware::workers::modbus::types::ConnectionState;
use std::time::Duration;

fn device(ops: u8) -> Device {
    Device {
        id: "plc-1".to_string(),
        device_type: DeviceType::Plc,
        address: "10.0.0.5".to_string(),
        port: 5020,
        unit_id: 7,
        addressing_mode: Default::default(),
        byte_order: ByteOrder::BigEndian,
        tcp_nodelay: true,
        max_concurrent_ops: ops,
        max_pool_size: 5,
        heartbeat_interval_sec: 30,
        pool_health_check_interval_sec: 30,
        signal_groups: vec![],
    }
}

#[test]
fn worker_new_initializes_without_client() {
    let state: ModbusWorkerState<u32> = ModbusWorkerState::new(device(3));
    assert_eq!(state.connection_state(), ConnectionState::Disconnected);
    assert!(!state.has_connection_pool());
    assert_eq!(state.device().id, "plc-1");
}

#[test]
fn update_connection_state_emits_event_on_transition_only() {
    let mut state: ModbusWorkerState<u32> = ModbusWorkerState::new(device(3));
    assert!(state.update_connection_state(ConnectionState::Disconnected, 5).is_none());
    let e = state.update_connection_state(ConnectionState::Connecting, 6).unwrap();
    assert_eq!(e.device_id, "plc-1");
    assert!(matches!(e.event_type, DeviceEventType::Reconnecting));
    assert_eq!(e.timestamp_ms, 6);
    assert_eq!(e.details, "Connection state: Connecting");
    assert!(state.update_connection_state(ConnectionState::Connecting, 7).is_none());
    let e = state.update_connection_state(ConnectionState::Connected, 8).unwrap();
    assert_eq!(e.details, "Connection state: Connected");
    assert!(matches!(e.event_type, DeviceEventType::Connected));
}

#[test]
fn record_communication_updates_timestamp_and_latency_sample() {
    let mut state: ModbusWorkerState<u32> = ModbusWorkerState::new(device(3));
    let sample = state.record_communication(1500, 42);
    assert_eq!(sample.device_id, "plc-1");
    assert_eq!(sample.latency_us, 1500);
    assert_eq!(sample.timestamp_ms, 42);
}

#[test]
fn endpoint_and_pool_size() {
    let state: ModbusWorkerState<u32> = ModbusWorkerState::new(device(8));
    assert_eq!(state.endpoint(), "10.0.0.5:5020");
    assert_eq!(state.pool_size(), 5);
    let state: ModbusWorkerState<u32> = ModbusWorkerState::new(device(2));
    assert_eq!(state.pool_size(), 2);
}

#[test]
fn ensure_connected_creates_a_pool_when_reachable() {
    let mut state: ModbusWorkerState<u32> = ModbusWorkerState::new(device(3));
    assert_eq!(state.connect_target(), Some(("10.0.0.5:5020".to_string(), Duration::from_millis(1000))));
    let (ok, events) = state.ensure_connected(100, true);
    assert!(ok);
    assert_eq!(events.len(), 2);
    assert_eq!(events[0].details, "Connection state: Connecting");
    assert_eq!(events[1].details, "Connection state: Connected");
    assert_eq!(state.connection_state(), ConnectionState::Connected);
    assert!(state.has_connection_pool());
    assert_eq!(state.connect_target(), None);
    let (ok, events) = state.ensure_connected(200, false);
    assert!(ok);
    assert!(events.is_empty());
    assert!(POOL_HEALTH_CHECK_INTERVAL_MS > 0);
}

#[test]
fn ensure_connected_backs_off_when_unreachable() {
    let mut state: ModbusWorkerState<u32> = ModbusWorkerState::new(device(3));
    let (ok, events) = state.ensure_connected(100, false);
    assert!(!ok);
    assert_eq!(events.len(), 2);
    assert_eq!(events[1].details, "Connection state: Disconnected");
    assert_eq!(state.connection_state(), ConnectionState::Disconnected);
    assert_eq!(state.connect_target(), Some(("10.0.0.5:5020".to_string(), Duration::from_millis(2000))));
}

#[test]
fn operation_slots_are_limited() {
    let mut state: ModbusWorkerState<u32> = ModbusWorkerState::new(device(2));
    assert!(state.try_acquire_operation());
    assert!(state.try_acquire_operation());
    assert!(!state.try_acquire_operation());
    state.complete_operation();
    assert!(state.try_acquire_operation());
}

#[test]
fn update_device_config_takes_only_signal_groups() {
    let mut state: ModbusWorkerState<u32> = ModbusWorkerState::new(device(3));
    let mut other = device(9);
    other.address = "elsewhere".to_string();
    other.signal_groups = vec![SignalGroup {
        name: "new_group".to_string(),
        description: String::new(),
        register_address: "h0".to_string(),
        register_count: 10,
        fields: vec![],
    }];
    state.update_device_config(other);
    assert_eq!(state.device().signal_groups.len(), 1);
    assert_eq!(state.device().address, "10.0.0.5");
    assert_eq!(state.device().max_concurrent_ops, 3);
}
