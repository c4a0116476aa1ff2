use roboplc_middleware::api::{BatchOperationRequest, MoveRequest, WriteOperation};
use roboplc_middleware::events::DeviceStatus;
use roboplc_middleware::messages::{Operation, SystemStatusResponse};
use std::time::Instant;

#[test]
fn test_move_request_default_speed() {
    let req = MoveRequest { position: "home".to_string(), speed: None };
    assert_eq!(req.speed_or_default(), 100);
    let req = MoveRequest { position: "home".to_string(), speed: Some(30) };
    assert_eq!(req.speed_or_default(), 30);
}

#[test]
fn batch_writes_when_it_has_writes() {
    let read_only = BatchOperationRequest { read: vec!["h1".to_string()], write: vec![] };
    assert!(!read_only.writes());
    let writing = BatchOperationRequest {
        read: vec![],
        write: vec![WriteOperation { address: "h1".to_string(), value: 5 }],
    };
    assert!(writing.writes());
}

#[test]
fn device_status_records_checks() {
    let now = Instant::now();
    let mut status = DeviceStatus::registered(now);
    assert!(!status.connected);
    assert!(status.record_check(true, Instant::now()));
    assert!(!status.record_check(true, Instant::now()));
    assert!(status.record_check(false, Instant::now()));
    assert_eq!(status.error_count, 0);
}

#[test]
fn operations_and_status_are_plain_values() {
    assert_ne!(Operation::ReadSignalGroup, Operation::WriteSignalGroup);
    let s = SystemStatusResponse { devices_count: 2, system_healthy: true, uptime_secs: 5 };
    assert_eq!(s, SystemStatusResponse { devices_count: 2, system_healthy: true, uptime_secs: 5 });
}
