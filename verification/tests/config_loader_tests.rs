use roboplc_middleware::config::{
    ByteOrder, Config, DataType, Device, DeviceType, FieldMapping, Logging, Server, SignalGroup,
    StreamConfig,
};
use roboplc_middleware::workers::config_loader::{apply_reload, changed_paths};

fn base_config(rpc_port: u16, http_port: u16, level: &str) -> Config {
    Config {
        server: Server { rpc_port, http_port, rpc_worker_threads: 4, rpc_max_blocking_threads: 128 },
        logging: Logging { level: level.to_string(), file: "/tmp/roboplc.log".to_string(), daily_rotation: true },
        ..Default::default()
    }
}

fn device(id: &str, offset: u16) -> Device {
    Device {
        id: id.to_string(),
        device_type: DeviceType::Plc,
        address: "127.0.0.1".to_string(),
        port: 502,
        unit_id: 1,
        addressing_mode: Default::default(),
        byte_order: ByteOrder::BigEndian,
        tcp_nodelay: true,
        max_concurrent_ops: 3,
        max_pool_size: 5,
        heartbeat_interval_sec: 30,
        pool_health_check_interval_sec: 30,
        signal_groups: vec![SignalGroup {
            name: "motor".to_string(),
            description: String::new(),
            register_address: "h100".to_string(),
            register_count: 4,
            fields: vec![FieldMapping { name: "speed".to_string(), data_type: DataType::U16, offset }],
        }],
    }
}

#[test]
fn reload_config_detects_diff_and_updates_current_config() {
    let old = base_config(8080, 8081, "info");
    let new = base_config(9090, 8081, "debug");
    let changed = changed_paths(&old, &new);
    assert!(changed.iter().any(|path| path == "server.rpc_port"));
    assert!(changed.iter().any(|path| path == "logging.level"));
    assert_eq!(changed, vec!["logging.level".to_string(), "server.rpc_port".to_string()]);
}

#[test]
fn unchanged_config_reports_nothing() {
    let mut c = base_config(8080, 8081, "info");
    c.devices = vec![device("plc-1", 0)];
    assert!(changed_paths(&c, &c.clone()).is_empty());
}

#[test]
fn lists_change_as_a_whole() {
    let mut old = base_config(8080, 8081, "info");
    old.devices = vec![device("plc-1", 0)];
    let mut new = old.clone();
    new.devices = vec![device("plc-1", 1)];
    new.streams = vec![StreamConfig {
        device_id: "plc-1".to_string(),
        signal_group: "motor".to_string(),
        poll_interval_ms: 100,
        enabled: true,
        priority: 0,
    }];
    new.timeouts.operation_timeout_ms = 1500;
    assert_eq!(
        changed_paths(&old, &new),
        vec!["devices".to_string(), "streams".to_string(), "timeouts.operation_timeout_ms".to_string()]
    );
}

#[test]
fn unchanged_reload_keeps_the_configuration() {
    let mut current = base_config(8080, 8081, "info");
    assert!(apply_reload(&mut current, base_config(8080, 8081, "info")).is_empty());
    assert_eq!(current.logging.level, "info");
    let changed = apply_reload(&mut current, base_config(9090, 8081, "debug"));
    assert_eq!(changed, vec!["logging.level".to_string(), "server.rpc_port".to_string()]);
    assert_eq!(current.server.rpc_port, 9090);
    assert_eq!(current.logging.level, "debug");
}
