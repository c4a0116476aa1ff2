use roboplc_middleware::workers::modbus::client::{after_attempt, connect_failure, AttemptStep};
use roboplc_middleware::workers::modbus::client::{
    coils_to_registers, is_connection_broken, needs_reconnect, op_request, plan_write,
    ModbusConnectionPool, ModbusOp, OpRequest, PooledConnection, WriteRequest, WriteValue,
};
use roboplc_middleware::workers::modbus::operations::RegisterType;
use roboplc_middleware::workers::modbus::state::POOL_HEALTH_CHECK_INTERVAL_MS;
use roboplc_middleware::DEFAULT_CONNECT_TIMEOUT_MS;

#[test]
fn modbus_op_read_coil_stores_address_and_count() {
    let op = ModbusOp::ReadCoil { address: 100, count: 10 };
    match op {
        ModbusOp::ReadCoil { address, count } => {
            assert_eq!(address, 100);
            assert_eq!(count, 10);
        }
        _ => panic!("Expected ReadCoil variant"),
    }
}

#[test]
fn modbus_op_read_holding_stores_address_and_count() {
    let op = ModbusOp::ReadHolding { address: 400, count: 50 };
    match op {
        ModbusOp::ReadHolding { address, count } => {
            assert_eq!(address, 400);
            assert_eq!(count, 50);
        }
        _ => panic!("Expected ReadHolding variant"),
    }
}

#[test]
fn coil_conversion_produces_zero_or_one() {
    let coil_values: Vec<u8> = vec![0, 1, 255, 0, 128, 0, 1];
    let converted = coils_to_registers(&coil_values);
    assert_eq!(converted, vec![0, 1, 1, 0, 1, 0, 1]);
}

#[test]
fn coil_conversion_preserves_count() {
    for count in [1, 10, 50, 100, 125] {
        let coil_values: Vec<u8> = (0..count).map(|i| (i % 2) as u8).collect();
        let converted = coils_to_registers(&coil_values);
        assert_eq!(converted.len(), count);
    }
}

#[test]
fn any_nonzero_coil_becomes_one() {
    let coil_values: Vec<u8> = vec![1, 2, 3, 127, 128, 255];
    let converted = coils_to_registers(&coil_values);
    assert!(converted.iter().all(|&v| v == 1));
}

#[test]
fn zero_coil_becomes_zero() {
    let coil_values: Vec<u8> = vec![0, 0, 0];
    let converted = coils_to_registers(&coil_values);
    assert!(converted.iter().all(|&v| v == 0));
}

#[test]
fn write_registers_validates_homogeneous_types() {
    let coil_values = vec![WriteValue::Coil(true), WriteValue::Coil(false)];
    assert!(plan_write(0, &coil_values).is_ok());
    let holding_values = vec![WriteValue::Holding(100), WriteValue::Holding(200)];
    assert!(plan_write(0, &holding_values).is_ok());
    let mixed = vec![WriteValue::Coil(true), WriteValue::Holding(100)];
    assert_eq!(
        plan_write(0, &mixed).unwrap_err(),
        "Cannot mix Coil and Holding types in single write operation"
    );
}

#[test]
fn coil_single_write_encoding() {
    match plan_write(7, &[WriteValue::Coil(true)]).unwrap() {
        WriteRequest::SingleCoil { address, word } => {
            assert_eq!(address, 7);
            assert_eq!(word, 0xFF00);
        }
        other => panic!("unexpected {:?}", other),
    }
    match plan_write(7, &[WriteValue::Coil(false)]).unwrap() {
        WriteRequest::SingleCoil { word, .. } => assert_eq!(word, 0x0000),
        other => panic!("unexpected {:?}", other),
    }
}

#[test]
fn coil_multiple_write_encoding() {
    let values = [WriteValue::Coil(true), WriteValue::Coil(false), WriteValue::Coil(true)];
    match plan_write(3, &values).unwrap() {
        WriteRequest::MultipleCoils { address, count, bytes } => {
            assert_eq!(address, 3);
            assert_eq!(count, 3);
            assert_eq!(bytes, vec![0xFF, 0x00, 0xFF]);
        }
        other => panic!("unexpected {:?}", other),
    }
}

#[test]
fn empty_write_is_refused() {
    assert_eq!(plan_write(0, &[]).unwrap_err(), "Cannot write empty values slice");
}

#[test]
fn register_writes_are_planned() {
    match plan_write(10, &[WriteValue::Holding(5)]).unwrap() {
        WriteRequest::SingleRegister { address, value } => assert_eq!((address, value), (10, 5)),
        other => panic!("unexpected {:?}", other),
    }
    match plan_write(10, &[WriteValue::Holding(5), WriteValue::Holding(6)]).unwrap() {
        WriteRequest::MultipleRegisters { address, count, values } => {
            assert_eq!((address, count), (10, 2));
            assert_eq!(values, vec![5, 6]);
        }
        other => panic!("unexpected {:?}", other),
    }
}

#[test]
fn op_request_splits_reads_and_writes() {
    match op_request(&ModbusOp::ReadDiscrete { address: 2, count: 3 }) {
        OpRequest::Read { kind, address, count } => {
            assert_eq!((kind, address, count), (RegisterType::Discrete, 2, 3))
        }
        other => panic!("unexpected {:?}", other),
    }
    match op_request(&ModbusOp::WriteMultipleCoils { address: 1, values: vec![true, false] }) {
        OpRequest::Write { address, values } => {
            assert_eq!(address, 1);
            assert_eq!(values, vec![WriteValue::Coil(true), WriteValue::Coil(false)]);
        }
        other => panic!("unexpected {:?}", other),
    }
    match op_request(&ModbusOp::WriteSingle { address: 9, value: 42 }) {
        OpRequest::Write { address, values } => {
            assert_eq!(address, 9);
            assert_eq!(values, vec![WriteValue::Holding(42)]);
        }
        other => panic!("unexpected {:?}", other),
    }
}

#[test]
fn broken_connection_errors_are_recognised() {
    assert!(is_connection_broken("Read failed: I/O error: failed to fill whole buffer"));
    assert!(is_connection_broken("Broken pipe (os error 32)"));
    assert!(is_connection_broken("connection reset by peer"));
    assert!(is_connection_broken("the connection closed"));
    assert!(!is_connection_broken("Read failed: illegal data address"));
    assert!(!is_connection_broken(""));
    assert!(needs_reconnect(false, &Some("I/O error".to_string())));
    assert!(!needs_reconnect(true, &Some("I/O error".to_string())));
    assert!(!needs_reconnect(false, &None));
    assert!(!needs_reconnect(false, &Some("timeout".to_string())));
}

#[test]
fn pool_new_creates_empty_pool() {
    let pool: ModbusConnectionPool<u32> =
        ModbusConnectionPool::new("127.0.0.1:502".to_string(), 1, 3, POOL_HEALTH_CHECK_INTERVAL_MS);
    assert_eq!(pool.pool_size(), 3);
    assert_eq!(pool.available_count(), 0);
    assert_eq!(pool.total_created(), 0);
    assert_eq!(pool.endpoint(), "127.0.0.1:502");
    assert_eq!(pool.unit_id(), 1);
}

#[test]
fn pool_new_with_different_sizes() {
    for size in [1usize, 5, 10] {
        let pool: ModbusConnectionPool<u32> =
            ModbusConnectionPool::new("127.0.0.1:502".to_string(), 1, size, POOL_HEALTH_CHECK_INTERVAL_MS);
        assert_eq!(pool.pool_size(), size);
    }
}

#[test]
fn pool_release_connection_discards_unhealthy() {
    let mut pool: ModbusConnectionPool<u32> =
        ModbusConnectionPool::new("127.0.0.1:502".to_string(), 1, 3, POOL_HEALTH_CHECK_INTERVAL_MS);
    assert_eq!(pool.available_count(), 0);
    pool.record_created();
    pool.release_connection(7, false, 0);
    assert_eq!(pool.available_count(), 0);
    assert_eq!(pool.total_created(), 0);
}

#[test]
fn pool_release_connection_respects_pool_size_limit() {
    let mut pool: ModbusConnectionPool<u32> =
        ModbusConnectionPool::new("127.0.0.1:502".to_string(), 1, 2, POOL_HEALTH_CHECK_INTERVAL_MS);
    for c in 0..3 {
        pool.record_created();
        pool.release_connection(c, true, 0);
    }
    assert_eq!(pool.available_count(), pool.pool_size());
    assert_eq!(pool.total_created(), 2);
}

#[test]
fn pool_constants_are_reasonable() {
    assert!(POOL_HEALTH_CHECK_INTERVAL_MS >= 10_000);
    assert!(POOL_HEALTH_CHECK_INTERVAL_MS <= 60_000);
    assert!(DEFAULT_CONNECT_TIMEOUT_MS >= 100);
    assert!(DEFAULT_CONNECT_TIMEOUT_MS <= 5000);
}

#[test]
fn pool_health_flag_is_set_on_creation() {
    let pooled = PooledConnection::new(5u32, 1000);
    assert!(pooled.is_healthy);
    assert_eq!(pooled.age(1040), 40);
    assert_eq!(pooled.age(900), 0);
}

#[test]
fn pool_hands_out_oldest_fresh_connection_and_drops_stale_ones() {
    let mut pool: ModbusConnectionPool<u32> =
        ModbusConnectionPool::new("plc:502".to_string(), 1, 3, 30_000);
    for (c, t) in [(1u32, 0u64), (2, 20_000), (3, 25_000)] {
        pool.record_created();
        pool.release_connection(c, true, t);
    }
    assert_eq!(pool.total_created(), 3);
    assert_eq!(pool.take_connection(40_000), Some(2));
    assert_eq!(pool.available_count(), 1);
    assert_eq!(pool.total_created(), 2);
    assert_eq!(pool.take_connection(100_000), None);
    assert_eq!(pool.available_count(), 0);
    assert_eq!(pool.total_created(), 1);
}

#[test]
fn released_connection_is_reused_next() {
    let mut pool: ModbusConnectionPool<&str> = ModbusConnectionPool::new("plc:502".to_string(), 1, 2, 30_000);
    pool.record_created();
    pool.release_connection("conn-a", true, 1_000);
    assert_eq!(pool.take_connection(2_000), Some("conn-a"));
}

#[test]
fn pool_counter_wraps_when_released_into_a_fresh_pool() {
    let mut pool: ModbusConnectionPool<u32> = ModbusConnectionPool::new("plc:502".to_string(), 1, 0, 30_000);
    pool.release_connection(1, true, 0);
    assert_eq!(pool.total_created(), usize::MAX);
}

#[test]
fn transaction_ids_start_at_one_and_wrap() {
    let mut pool: ModbusConnectionPool<u32> = ModbusConnectionPool::new("plc:502".to_string(), 1, 1, 30_000);
    assert_eq!(pool.next_transaction_id(), 1);
    assert_eq!(pool.next_transaction_id(), 2);
    for _ in 0..65532 {
        pool.next_transaction_id();
    }
    assert_eq!(pool.next_transaction_id(), 65535);
    assert_eq!(pool.next_transaction_id(), 0);
}

#[test]
fn pool_discards_old_connections() {
    let mut pool: ModbusConnectionPool<u32> =
        ModbusConnectionPool::new("127.0.0.1:502".to_string(), 1, 3, POOL_HEALTH_CHECK_INTERVAL_MS);
    assert_eq!(pool.available_count(), 0);
    assert_eq!(pool.take_connection(0), None);
}

#[test]
fn pool_failed_operation_does_not_return_to_pool() {
    let mut pool: ModbusConnectionPool<u32> =
        ModbusConnectionPool::new("127.0.0.1:502".to_string(), 1, 3, POOL_HEALTH_CHECK_INTERVAL_MS);
    assert_eq!(pool.take_connection(0), None);
    assert_eq!(pool.available_count(), 0);
    assert_eq!(pool.total_created(), 0);
}

#[test]
fn pool_tracks_total_created_correctly() {
    let mut pool: ModbusConnectionPool<u32> =
        ModbusConnectionPool::new("127.0.0.1:502".to_string(), 1, 3, POOL_HEALTH_CHECK_INTERVAL_MS);
    assert_eq!(pool.total_created(), 0);
    let _ = pool.take_connection(0);
    assert_eq!(pool.total_created(), 0);
    let _ = pool.take_connection(0);
    assert_eq!(pool.total_created(), 0);
}

#[test]
fn execute_operation_routes_read_coil() {
    // A refused connection is reported as such, before any attempt.
    assert_eq!(connect_failure(false, "Connection refused (os error 111)"), "Connection failed: Connection refused (os error 111)");
    assert_eq!(connect_failure(true, "timed out"), "Reconnection failed: timed out");
}

#[test]
fn a_call_retries_at_most_once() {
    let broken = Some("I/O error: Broken pipe".to_string());
    assert_eq!(after_attempt(false, false, &broken), AttemptStep::ReconnectAndRetry);
    assert_eq!(after_attempt(true, false, &broken), AttemptStep::Return);
    assert_eq!(after_attempt(false, true, &None), AttemptStep::Return);
    assert_eq!(after_attempt(false, false, &Some("Illegal data address".to_string())), AttemptStep::Return);
}
