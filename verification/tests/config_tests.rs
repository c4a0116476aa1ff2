use roboplc_middleware::config::{
    default_poll_interval_ms, default_rpc_max_blocking_threads, default_rpc_worker_threads,
    default_stream_enabled, ByteOrder, Config, ConfigError, DataType, Device, DeviceType, FieldMapping, SignalGroup,
    StreamConfig, StreamSettings, Timeouts,
};
use std::time::Duration;

fn stream(device: &str, group: &str, interval: u32, enabled: bool, priority: u8) -> StreamConfig {
    StreamConfig {
        device_id: device.to_string(),
        signal_group: group.to_string(),
        poll_interval_ms: interval,
        enabled,
        priority,
    }
}

fn device(id: &str, groups: Vec<SignalGroup>) -> Device {
    Device {
        id: id.to_string(),
        device_type: DeviceType::Plc,
        address: "127.0.0.1".to_string(),
        port: 502,
        unit_id: 1,
        addressing_mode: Default::default(),
        byte_order: ByteOrder::BigEndian,
        tcp_nodelay: true,
        max_concurrent_ops: 3,
        max_pool_size: 5,
        heartbeat_interval_sec: 30,
        pool_health_check_interval_sec: 30,
        signal_groups: groups,
    }
}

fn group(name: &str, address: &str, count: u16, fields: Vec<FieldMapping>) -> SignalGroup {
    SignalGroup {
        name: name.to_string(),
        description: String::new(),
        register_address: address.to_string(),
        register_count: count,
        fields,
    }
}

fn field(name: &str, data_type: DataType, offset: u16) -> FieldMapping {
    FieldMapping { name: name.to_string(), data_type, offset }
}

#[test]
fn test_stream_config_diff_detection() {
    let config1 = Config {
        streams: vec![stream("plc-1", "sensor_data", 100, true, 1)],
        stream_settings: StreamSettings::default(),
        ..Default::default()
    };
    let config2 = Config {
        streams: vec![stream("plc-1", "sensor_data", 200, true, 1)],
        stream_settings: StreamSettings::default(),
        ..Default::default()
    };
    assert!(config1.streams_differ(&config2.streams));
    assert!(!config1.streams_differ(&config1.streams));
}

#[test]
fn test_timeouts_duration_helpers() {
    let timeouts = Timeouts {
        connect_timeout_ms: 200,
        operation_timeout_ms: 1000,
        max_operation_timeout_ms: 30000,
        hub_send_timeout_ms: 2000,
        heartbeat_timeout_ms: 1000,
        pool_health_check_interval_sec: 30,
    };
    assert_eq!(timeouts.connect_timeout(), Duration::from_millis(200));
    assert_eq!(timeouts.operation_timeout(), Duration::from_millis(1000));
    assert_eq!(timeouts.max_operation_timeout(), Duration::from_millis(30000));
    assert_eq!(timeouts.hub_send_timeout(), Duration::from_millis(2000));
    assert_eq!(timeouts.heartbeat_timeout(), Duration::from_millis(1000));
}

#[test]
fn test_stream_config_validation() {
    let config = Config { streams: vec![stream("plc-1", "sensor_data", 1, true, 0)], ..Default::default() };
    match config.validate() {
        Err(ConfigError::StreamConfigValidation(m)) => {
            assert!(m.contains("poll_interval_ms"));
            assert_eq!(
                m,
                "StreamConfig validation error: poll_interval_ms must be between 5 and 5000, got 1"
            );
        }
        other => panic!("unexpected {:?}", other),
    }
}

#[test]
fn test_stream_config_validation_max() {
    let config = Config { streams: vec![stream("plc-1", "sensor_data", 6000, true, 0)], ..Default::default() };
    match config.validate() {
        Err(ConfigError::StreamConfigValidation(m)) => assert!(m.contains("poll_interval_ms")),
        other => panic!("unexpected {:?}", other),
    }
}

#[test]
fn stream_interval_bounds_are_accepted() {
    let config = Config {
        streams: vec![stream("plc-1", "a", 5, true, 0), stream("plc-1", "b", 5000, true, 0)],
        ..Default::default()
    };
    assert!(config.validate().is_ok());
}

#[test]
fn duplicate_device_ids_are_refused() {
    let config = Config { devices: vec![device("plc-1", vec![]), device("plc-1", vec![])], ..Default::default() };
    match config.validate() {
        Err(ConfigError::DuplicateDeviceId(id)) => assert_eq!(id, "plc-1"),
        other => panic!("unexpected {:?}", other),
    }
}

#[test]
fn bad_group_addresses_are_refused() {
    let config = Config {
        devices: vec![device("plc-1", vec![group("g", "x10", 1, vec![])])],
        ..Default::default()
    };
    match config.validate() {
        Err(ConfigError::InvalidAddressFormat(d, g, a)) => {
            assert_eq!((d.as_str(), g.as_str(), a.as_str()), ("plc-1", "g", "x10"));
        }
        other => panic!("unexpected {:?}", other),
    }
    let config = Config {
        devices: vec![device("plc-1", vec![group("g", "h70000", 1, vec![])])],
        ..Default::default()
    };
    match config.validate() {
        Err(ConfigError::AddressOutOfRange(_, _, n)) => assert_eq!(n, 70000),
        other => panic!("unexpected {:?}", other),
    }
}

#[test]
fn multibyte_address_start_is_refused() {
    let config = Config {
        devices: vec![device("plc-1", vec![group("g", "é5", 1, vec![])])],
        ..Default::default()
    };
    match config.validate() {
        Err(ConfigError::InvalidAddressFormat(d, g, a)) => {
            assert_eq!(d, "plc-1");
            assert_eq!(g, "g");
            assert_eq!(a, "é5");
        }
        other => panic!("unexpected {:?}", other),
    }
}

#[test]
fn field_ending_past_a_full_size_group_is_refused() {
    let g = group("wide", "h0", 65535, vec![field("far", DataType::F32, 65534)]);
    assert_eq!(
        g.validate(),
        Err("Field 'far' in signal group 'wide' requires 2 registers, but group only has 65535".to_string())
    );
    let fits = group("wide", "h0", 65535, vec![field("last", DataType::F32, 65533)]);
    assert_eq!(fits.validate(), Ok(()));
}

#[test]
fn field_past_group_end_is_refused() {
    let g = group("motor", "h100", 1, vec![field("speed", DataType::U32, 0)]);
    assert_eq!(
        g.validate(),
        Err("Field 'speed' in signal group 'motor' requires 2 registers, but group only has 1"
            .to_string())
    );
    let dup = group("motor", "h100", 2, vec![field("a", DataType::U16, 0), field("a", DataType::U16, 1)]);
    assert_eq!(dup.validate(), Err("Duplicate field name 'a' in signal group 'motor'".to_string()));
    let config = Config { devices: vec![device("plc-1", vec![g])], ..Default::default() };
    assert!(matches!(config.validate(), Err(ConfigError::SignalGroupValidation(_, _))));
}

#[test]
fn valid_config_passes() {
    let g = group("motor", " H100 ", 4, vec![field("speed", DataType::U32, 0), field("on", DataType::Bool, 2)]);
    let config = Config { devices: vec![device("plc-1", vec![g])], ..Default::default() };
    assert!(config.validate().is_ok());
}

#[test]
fn required_registers_per_type() {
    assert_eq!(DataType::U16.required_registers(), 1);
    assert_eq!(DataType::Bool.required_registers(), 1);
    assert_eq!(DataType::U32.required_registers(), 2);
    assert_eq!(DataType::F32.required_registers(), 2);
    assert_eq!(DataType::F64.required_registers(), 4);
}

#[test]
fn test_stream_config_defaults() {
    assert_eq!(default_poll_interval_ms(), 100);
    assert!(default_stream_enabled());
}

#[test]
fn test_stream_settings_defaults() {
    let settings = StreamSettings::default();
    assert_eq!(settings.max_concurrent_streams, 100);
    assert_eq!(settings.cache_ttl_ms, 5000);
    assert!(settings.enable_websocket);
    assert_eq!(settings.websocket_port, 8082);
}

#[test]
fn test_server_runtime_config_defaults() {
    assert_eq!(default_rpc_worker_threads(), 4);
    assert_eq!(default_rpc_max_blocking_threads(), 128);
}
