use roboplc_middleware::config::{ByteOrder, DataType, Device, DeviceType, FieldMapping, SignalGroup};
use roboplc_middleware::data_conversion::NumericForms;
use roboplc_middleware::messages::Operation;
use roboplc_middleware::workers::modbus::handler::{
    encoding_would_overrun, find_device_config, incomplete_fields_message, needs_slot,
    operation_to_modbus_op,
    plan_device_control, resolve_signal_group, validate_field_completeness, validate_writable,
    ControlParams, ControlStep,
};
use roboplc_middleware::workers::modbus::operations::RegisterType;
use roboplc_middleware::workers::modbus::parsing::FieldInput;
use roboplc_middleware::workers::modbus::ModbusOp;

fn make_field(name: &str, data_type: DataType, offset: u16) -> FieldMapping {
    FieldMapping { name: name.to_string(), data_type, offset }
}

fn group(name: &str, address: &str, count: u16, fields: Vec<FieldMapping>) -> SignalGroup {
    SignalGroup {
        name: name.to_string(),
        description: String::new(),
        register_address: address.to_string(),
        register_count: count,
        fields,
    }
}

fn create_test_device() -> Device {
    Device {
        id: "test-device".to_string(),
        device_type: DeviceType::Plc,
        address: "127.0.0.1".to_string(),
        port: 502,
        unit_id: 1,
        addressing_mode: Default::default(),
        byte_order: ByteOrder::BigEndian,
        tcp_nodelay: true,
        max_concurrent_ops: 3,
        max_pool_size: 5,
        heartbeat_interval_sec: 30,
        pool_health_check_interval_sec: 30,
        signal_groups: vec![
            group("motor", "h100", 3, vec![make_field("speed", DataType::U32, 0), make_field("dir", DataType::U16, 2)]),
            group("lamps", "c10", 2, vec![make_field("red", DataType::Bool, 0), make_field("green", DataType::Bool, 1)]),
            group("sensors", "i0", 4, vec![]),
            group("switches", "d5", 8, vec![]),
        ],
    }
}

fn forms(v: f64) -> NumericForms {
    NumericForms {
        as_u16: v as u16,
        as_u32: v as u32,
        as_i16: v as i16,
        as_i32: v as i32,
        f32_bits: (v as f32).to_bits(),
        nonzero: v != 0.0,
    }
}

fn params(group_name: Option<&str>, data: Option<Vec<(&str, f64)>>, values: Option<Vec<Option<u64>>>) -> ControlParams {
    ControlParams {
        group_name: group_name.map(|g| g.to_string()),
        data: data.map(|d| d.into_iter().map(|(n, v)| FieldInput { name: n.to_string(), value: Some(forms(v)) }).collect()),
        values,
    }
}

fn names(v: &[&str]) -> Vec<String> {
    v.iter().map(|s| s.to_string()).collect()
}

#[test]
fn validate_field_completeness_all_fields_provided() {
    let provided = names(&["field1", "field2"]);
    let required = vec![make_field("field1", DataType::U16, 0), make_field("field2", DataType::U16, 1)];
    let result = validate_field_completeness(&provided, &required);
    assert!(result.is_ok());
}

#[test]
fn validate_field_completeness_missing_fields() {
    let provided = names(&["field1"]);
    let required = vec![
        make_field("field1", DataType::U16, 0),
        make_field("field2", DataType::U16, 1),
        make_field("field3", DataType::U16, 2),
    ];
    let result = validate_field_completeness(&provided, &required);
    assert!(result.is_err());
    let missing = result.unwrap_err();
    assert_eq!(missing.len(), 2);
    assert!(missing.contains(&"field2".to_string()));
    assert!(missing.contains(&"field3".to_string()));
}

#[test]
fn validate_field_completeness_empty_provided() {
    let provided: Vec<String> = vec![];
    let required = vec![make_field("field1", DataType::U16, 0), make_field("field2", DataType::U16, 1)];
    let result = validate_field_completeness(&provided, &required);
    assert!(result.is_err());
    let missing = result.unwrap_err();
    assert_eq!(missing.len(), 2);
}

#[test]
fn validate_field_completeness_no_required_fields() {
    let provided = names(&["field1"]);
    let required: Vec<FieldMapping> = vec![];
    let result = validate_field_completeness(&provided, &required);
    assert!(result.is_ok());
}

#[test]
fn incomplete_message_lists_missing_fields() {
    assert_eq!(
        incomplete_fields_message(&names(&["a", "b"])),
        "Incomplete signal group: missing fields [a, b]. All fields must be provided."
    );
    assert_eq!(
        incomplete_fields_message(&names(&["speed"])),
        "Incomplete signal group: missing fields [speed]. All fields must be provided."
    );
}

#[test]
fn read_signal_group_becomes_a_read_of_the_group() {
    let d = create_test_device();
    let op = operation_to_modbus_op(&d, Operation::ReadSignalGroup, &params(Some("motor"), None, None));
    assert!(matches!(op, Some(ModbusOp::ReadHolding { address: 100, count: 3 })));
    let op = operation_to_modbus_op(&d, Operation::ReadSignalGroup, &params(Some("lamps"), None, None));
    assert!(matches!(op, Some(ModbusOp::ReadCoil { address: 10, count: 2 })));
    let op = operation_to_modbus_op(&d, Operation::ReadSignalGroup, &params(Some("sensors"), None, None));
    assert!(matches!(op, Some(ModbusOp::ReadInput { address: 0, count: 4 })));
    let op = operation_to_modbus_op(&d, Operation::ReadSignalGroup, &params(Some("switches"), None, None));
    assert!(matches!(op, Some(ModbusOp::ReadDiscrete { address: 5, count: 8 })));
    assert!(operation_to_modbus_op(&d, Operation::ReadSignalGroup, &params(Some("nope"), None, None)).is_none());
    assert!(operation_to_modbus_op(&d, Operation::ReadSignalGroup, &params(None, None, None)).is_none());
    assert!(operation_to_modbus_op(&d, Operation::GetStatus, &params(Some("motor"), None, None)).is_none());
}

#[test]
fn write_signal_group_encodes_fields() {
    let d = create_test_device();
    let p = params(Some("motor"), Some(vec![("speed", 70000.0), ("dir", 1.0)]), None);
    match operation_to_modbus_op(&d, Operation::WriteSignalGroup, &p) {
        Some(ModbusOp::WriteMultiple { address, values }) => {
            assert_eq!(address, 100);
            assert_eq!(values, vec![0x0001, 0x1170, 1]);
        }
        other => panic!("unexpected {:?}", other),
    }
}

#[test]
fn write_signal_group_with_raw_values() {
    let d = create_test_device();
    let p = params(Some("motor"), None, Some(vec![Some(1), None, Some(65537)]));
    match operation_to_modbus_op(&d, Operation::WriteSignalGroup, &p) {
        Some(ModbusOp::WriteMultiple { address, values }) => {
            assert_eq!(address, 100);
            assert_eq!(values, vec![1, 1]);
        }
        other => panic!("unexpected {:?}", other),
    }
    let p = params(Some("lamps"), None, Some(vec![Some(3)]));
    assert!(matches!(
        operation_to_modbus_op(&d, Operation::WriteSignalGroup, &p),
        Some(ModbusOp::WriteSingleCoil { address: 10, value: true })
    ));
    let p = params(Some("lamps"), Some(vec![("red", 1.0), ("green", 0.0)]), None);
    match operation_to_modbus_op(&d, Operation::WriteSignalGroup, &p) {
        Some(ModbusOp::WriteMultipleCoils { address, values }) => {
            assert_eq!(address, 10);
            assert_eq!(values, vec![true, false]);
        }
        other => panic!("unexpected {:?}", other),
    }
}

#[test]
fn write_to_read_only_or_without_values_is_refused() {
    let d = create_test_device();
    assert!(operation_to_modbus_op(&d, Operation::WriteSignalGroup, &params(Some("sensors"), None, Some(vec![Some(1)]))).is_none());
    assert!(operation_to_modbus_op(&d, Operation::WriteSignalGroup, &params(Some("motor"), None, None)).is_none());
    assert!(operation_to_modbus_op(&d, Operation::WriteSignalGroup, &params(Some("motor"), Some(vec![("other", 1.0)]), None)).is_none());
    assert_eq!(validate_writable(RegisterType::Input), Err("Cannot write to read-only register type"));
    assert_eq!(validate_writable(RegisterType::Coil), Ok(()));
}

#[test]
fn resolve_and_find_by_name() {
    let d = create_test_device();
    assert_eq!(resolve_signal_group(&d.signal_groups, &"lamps".to_string()).map(|g| g.register_count), Some(2));
    assert!(resolve_signal_group(&d.signal_groups, &"none".to_string()).is_none());
    let devices = vec![d];
    assert!(find_device_config(&devices, &"test-device".to_string()).is_some());
    assert!(find_device_config(&devices, &"other".to_string()).is_none());
}

fn refused(step: ControlStep) -> (String, bool) {
    match step {
        ControlStep::Refuse { error, release } => (error, release),
        other => panic!("unexpected {:?}", other),
    }
}

#[test]
fn device_control_answers_before_running() {
    let d = create_test_device();
    let read = params(Some("motor"), None, None);
    assert_eq!(refused(plan_device_control(&d, false, Operation::ReadSignalGroup, &read, false, true)), ("Device not connected".to_string(), false));
    assert!(matches!(plan_device_control(&d, true, Operation::GetStatus, &read, false, true), ControlStep::ReportStatus));
    assert_eq!(refused(plan_device_control(&d, true, Operation::ReadSignalGroup, &read, false, true)), ("Too many concurrent operations".to_string(), false));
    assert_eq!(refused(plan_device_control(&d, true, Operation::ReadSignalGroup, &read, true, false)), ("Connection pool not available".to_string(), true));
    let partial = params(Some("motor"), Some(vec![("speed", 1.0)]), None);
    assert_eq!(
        refused(plan_device_control(&d, true, Operation::WriteSignalGroup, &partial, true, true)),
        ("Incomplete signal group: missing fields [dir]. All fields must be provided.".to_string(), true)
    );
    assert!(needs_slot(true, Operation::WriteSignalGroup));
    assert!(!needs_slot(true, Operation::GetStatus));
    assert!(!needs_slot(false, Operation::ReadSignalGroup));
}

#[test]
fn device_control_runs_complete_requests() {
    let d = create_test_device();
    match plan_device_control(&d, true, Operation::ReadSignalGroup, &params(Some("motor"), None, None), true, true) {
        ControlStep::Execute { op, group_name } => {
            assert_eq!(group_name, "motor");
            assert!(matches!(op, Some(ModbusOp::ReadHolding { address: 100, count: 3 })));
        }
        other => panic!("unexpected {:?}", other),
    }
    match plan_device_control(&d, true, Operation::ReadSignalGroup, &params(Some("unknown"), None, None), true, true) {
        ControlStep::Execute { op, group_name } => {
            assert_eq!(group_name, "unknown");
            assert!(op.is_none());
        }
        other => panic!("unexpected {:?}", other),
    }
    match plan_device_control(&d, true, Operation::WriteSignalGroup, &params(None, None, Some(vec![Some(1)])), true, true) {
        ControlStep::Execute { op, group_name } => {
            assert_eq!(group_name, "");
            assert!(op.is_none());
        }
        other => panic!("unexpected {:?}", other),
    }
}

#[test]
fn writes_past_a_saturated_field_end_are_detected() {
    let mut d = create_test_device();
    d.signal_groups.push(group("wide", "h0", 65535, vec![make_field("far", DataType::U32, 65535)]));
    let far = ControlParams {
        group_name: Some("wide".to_string()),
        data: Some(vec![FieldInput { name: "far".to_string(), value: Some(forms(7.0)) }]),
        values: None,
    };
    assert!(encoding_would_overrun(&d, Operation::WriteSignalGroup, &far));
    assert!(!encoding_would_overrun(&d, Operation::ReadSignalGroup, &far));
    let motor = ControlParams {
        group_name: Some("motor".to_string()),
        data: Some(vec![FieldInput { name: "speed".to_string(), value: Some(forms(7.0)) }]),
        values: None,
    };
    assert!(!encoding_would_overrun(&d, Operation::WriteSignalGroup, &motor));
    let unknown_first = ControlParams {
        group_name: Some("wide".to_string()),
        data: Some(vec![
            FieldInput { name: "nope".to_string(), value: Some(forms(1.0)) },
            FieldInput { name: "far".to_string(), value: Some(forms(7.0)) },
        ]),
        values: None,
    };
    assert!(!encoding_would_overrun(&d, Operation::WriteSignalGroup, &unknown_first));
}

#[test]
fn find_device_config_finds_matching_device() {
    let mut updated = create_test_device();
    updated.signal_groups = vec![group("new_group", "h0", 10, vec![])];
    let config = roboplc_middleware::config::Config { devices: vec![updated], ..Default::default() };
    let found = find_device_config(&config.devices, &"test-device".to_string());
    assert!(found.is_some());
    assert_eq!(found.unwrap().signal_groups.len(), 1);
}

#[test]
fn find_device_config_returns_none_for_unknown_device() {
    let mut other = create_test_device();
    other.id = "other-device".to_string();
    other.signal_groups = vec![];
    let config = roboplc_middleware::config::Config { devices: vec![other], ..Default::default() };
    assert!(find_device_config(&config.devices, &"test-device".to_string()).is_none());
}

#[test]
fn overrunning_write_is_refused_before_it_is_built() {
    let mut d = create_test_device();
    d.signal_groups.push(group("wide", "h0", 65535, vec![make_field("far", DataType::U32, 65535)]));
    let far = ControlParams {
        group_name: Some("wide".to_string()),
        data: Some(vec![FieldInput { name: "far".to_string(), value: Some(forms(7.0)) }]),
        values: None,
    };
    match plan_device_control(&d, false, Operation::WriteSignalGroup, &far, false, false) {
        ControlStep::Refuse { error, release } => {
            assert_eq!(error, "Device not connected");
            assert!(!release);
        }
        other => panic!("unexpected {:?}", other),
    }
    match plan_device_control(&d, true, Operation::WriteSignalGroup, &far, false, true) {
        ControlStep::Refuse { error, release } => {
            assert_eq!(error, "Too many concurrent operations");
            assert!(!release);
        }
        other => panic!("unexpected {:?}", other),
    }
}
