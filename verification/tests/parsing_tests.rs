use roboplc_middleware::config::{ByteOrder, DataType, FieldMapping};
use roboplc_middleware::data_conversion::{NumericForms, RawValue};
use roboplc_middleware::workers::modbus::parsing::{
    bytes_to_registers, encode_fields_to_registers, extract_bytes_from_registers,
    parse_signal_group_fields, FieldInput, ParsedField,
};

fn make_field(name: &str, data_type: DataType, offset: u16) -> FieldMapping {
    FieldMapping { name: name.to_string(), data_type, offset }
}

fn forms(v: f64) -> NumericForms {
    NumericForms {
        as_u16: v as u16,
        as_u32: v as u32,
        as_i16: v as i16,
        as_i32: v as i32,
        f32_bits: (v as f32).to_bits(),
        nonzero: v != 0.0,
    }
}

fn input(name: &str, v: f64) -> FieldInput {
    FieldInput { name: name.to_string(), value: Some(forms(v)) }
}

fn number(p: &ParsedField) -> f64 {
    match p.value {
        RawValue::Integer(i) => i as f64,
        RawValue::Float32Bits(b) => f32::from_bits(b) as f64,
    }
}

#[test]
fn extract_bytes_from_registers_single() {
    let registers = vec![0x1234];
    let bytes = extract_bytes_from_registers(&registers, 0, 2);
    assert_eq!(bytes, vec![0x12, 0x34]);
}

#[test]
fn extract_bytes_from_registers_pair() {
    let registers = vec![0x1234, 0x5678];
    let bytes = extract_bytes_from_registers(&registers, 0, 4);
    assert_eq!(bytes, vec![0x12, 0x34, 0x56, 0x78]);
}

#[test]
fn extract_bytes_from_registers_with_offset() {
    let registers = vec![0x0001, 0x0203, 0x0405];
    let bytes = extract_bytes_from_registers(&registers, 1, 4);
    assert_eq!(bytes, vec![0x02, 0x03, 0x04, 0x05]);
}

#[test]
fn extract_one_byte_takes_low_byte_and_stops_at_end() {
    assert_eq!(extract_bytes_from_registers(&[0x1234], 0, 1), vec![0x34]);
    assert_eq!(extract_bytes_from_registers(&[0x1234], 0, 4), vec![0x12, 0x34]);
    assert_eq!(extract_bytes_from_registers(&[0x1234], 3, 2), Vec::<u8>::new());
}

#[test]
fn bytes_to_registers_keeps_odd_byte_low() {
    assert_eq!(bytes_to_registers(&[0x12, 0x34, 0x56]), vec![0x1234, 0x0056]);
    assert_eq!(bytes_to_registers(&[]), Vec::<u16>::new());
}

#[test]
fn parse_signal_group_with_u16_fields() {
    let registers = vec![0x1234, 0x5678];
    let fields = vec![make_field("field1", DataType::U16, 0), make_field("field2", DataType::U16, 1)];
    let parsed = parse_signal_group_fields(&registers, &fields, ByteOrder::BigEndian);
    assert_eq!(parsed.len(), 2);
    assert_eq!(parsed[0].name, "field1");
    assert_eq!(number(&parsed[0]), 4660.0);
    assert_eq!(parsed[0].data_type, DataType::U16);
    assert_eq!(parsed[1].name, "field2");
    assert_eq!(number(&parsed[1]), 22136.0);
}

#[test]
fn parse_signal_group_with_f32_field() {
    let registers = vec![0x4049, 0x0FD0];
    let fields = vec![make_field("pi", DataType::F32, 0)];
    let parsed = parse_signal_group_fields(&registers, &fields, ByteOrder::BigEndian);
    assert_eq!(parsed.len(), 1);
    assert_eq!(parsed[0].name, "pi");
    let expected = std::f32::consts::PI as f64;
    assert!((number(&parsed[0]) - expected).abs() < 0.0001);
}

#[test]
fn parse_signal_group_with_mixed_types() {
    let registers = vec![0x1234, 0x5678, 0xABCD, 0xEF01];
    let fields = vec![
        make_field("u16_val", DataType::U16, 0),
        make_field("f32_val", DataType::F32, 1),
        make_field("i16_val", DataType::I16, 3),
    ];
    let parsed = parse_signal_group_fields(&registers, &fields, ByteOrder::BigEndian);
    assert_eq!(parsed.len(), 3);
    assert_eq!(number(&parsed[0]), 4660.0);
    assert_eq!(number(&parsed[2]), -4351.0);
}

#[test]
fn parse_field_with_offset() {
    let registers = vec![0x0001, 0x0002, 0x0003, 0x0004];
    let fields = vec![make_field("offset_field", DataType::U16, 2)];
    let parsed = parse_signal_group_fields(&registers, &fields, ByteOrder::BigEndian);
    assert_eq!(parsed.len(), 1);
    assert_eq!(number(&parsed[0]), 3.0);
}

#[test]
fn parse_field_with_little_endian() {
    let registers: Vec<u16> = vec![0x1234, 0x5678];
    let fields = vec![make_field("little_u32", DataType::U32, 0)];
    let parsed = parse_signal_group_fields(&registers, &fields, ByteOrder::LittleEndian);
    assert_eq!(parsed.len(), 1);
    assert_eq!(number(&parsed[0]), 2018915346.0);
}

#[test]
fn parse_empty_signal_group() {
    let registers: Vec<u16> = vec![];
    let fields: Vec<FieldMapping> = vec![];
    let parsed = parse_signal_group_fields(&registers, &fields, ByteOrder::BigEndian);
    assert!(parsed.is_empty());
}

#[test]
fn parse_signal_group_with_bool_true() {
    let registers = vec![0x0001];
    let fields = vec![make_field("flag", DataType::Bool, 0)];
    let parsed = parse_signal_group_fields(&registers, &fields, ByteOrder::BigEndian);
    assert_eq!(parsed.len(), 1);
    assert_eq!(number(&parsed[0]), 1.0);
}

#[test]
fn parse_signal_group_with_bool_false() {
    let registers = vec![0x0000];
    let fields = vec![make_field("flag", DataType::Bool, 0)];
    let parsed = parse_signal_group_fields(&registers, &fields, ByteOrder::BigEndian);
    assert_eq!(parsed.len(), 1);
    assert_eq!(number(&parsed[0]), 0.0);
}

#[test]
fn parse_i16_negative_value() {
    let registers = vec![0xFFFF];
    let fields = vec![make_field("negative", DataType::I16, 0)];
    let parsed = parse_signal_group_fields(&registers, &fields, ByteOrder::BigEndian);
    assert_eq!(parsed.len(), 1);
    assert_eq!(number(&parsed[0]), -1.0);
}

#[test]
fn parse_u32_two_registers() {
    let registers = vec![0x1234, 0x5678];
    let fields = vec![make_field("u32_val", DataType::U32, 0)];
    let parsed = parse_signal_group_fields(&registers, &fields, ByteOrder::BigEndian);
    assert_eq!(parsed.len(), 1);
    assert_eq!(number(&parsed[0]), 305419896.0);
}

#[test]
fn parse_i32_negative_value() {
    let registers = vec![0xFFFF, 0xFFFF];
    let fields = vec![make_field("negative", DataType::I32, 0)];
    let parsed = parse_signal_group_fields(&registers, &fields, ByteOrder::BigEndian);
    assert_eq!(parsed.len(), 1);
    assert_eq!(number(&parsed[0]), -1.0);
}

#[test]
fn parse_field_offset_out_of_bounds_skipped() {
    let registers = vec![0x1234, 0x5678];
    let fields = vec![make_field("valid", DataType::U16, 0), make_field("out_of_bounds", DataType::U16, 2)];
    let parsed = parse_signal_group_fields(&registers, &fields, ByteOrder::BigEndian);
    assert_eq!(parsed.len(), 1);
    assert_eq!(parsed[0].name, "valid");
}

#[test]
fn parse_f32_offset_out_of_bounds_skipped() {
    let registers = vec![0x1234, 0x5678];
    let fields = vec![make_field("valid_u16", DataType::U16, 0), make_field("out_of_bounds_f32", DataType::F32, 1)];
    let parsed = parse_signal_group_fields(&registers, &fields, ByteOrder::BigEndian);
    assert_eq!(parsed.len(), 1);
    assert_eq!(parsed[0].name, "valid_u16");
}

#[test]
fn parse_with_little_endian_byte_swap() {
    let registers = vec![0x1234, 0x5678];
    let fields = vec![make_field("swapped", DataType::U32, 0)];
    let parsed = parse_signal_group_fields(&registers, &fields, ByteOrder::LittleEndianByteSwap);
    assert_eq!(parsed.len(), 1);
    assert_eq!(number(&parsed[0]), 873625686.0);
}

#[test]
fn parse_with_mid_big_byte_order() {
    let registers = vec![0x1234, 0x5678];
    let fields = vec![make_field("midbig", DataType::U32, 0)];
    let parsed = parse_signal_group_fields(&registers, &fields, ByteOrder::MidBig);
    assert_eq!(parsed.len(), 1);
    assert_eq!(number(&parsed[0]), 1450709556.0);
}

#[test]
fn encode_fields_to_registers_u16() {
    let data = vec![input("value", 4660.0)];
    let fields = vec![make_field("value", DataType::U16, 0)];
    let result = encode_fields_to_registers(&data, &fields, 2, ByteOrder::BigEndian);
    assert!(result.is_some());
    let registers = result.unwrap();
    assert_eq!(registers, vec![4660, 0]);
}

#[test]
fn encode_fields_to_registers_f32() {
    let data = vec![input("pi", 3.14159)];
    let fields = vec![make_field("pi", DataType::F32, 0)];
    let result = encode_fields_to_registers(&data, &fields, 2, ByteOrder::BigEndian);
    assert!(result.is_some());
    let registers = result.unwrap();
    assert_eq!(registers.len(), 2);
    let bits = ((registers[0] as u32) << 16) | registers[1] as u32;
    assert_eq!(bits, 3.14159f32.to_bits());
}

#[test]
fn encode_fields_to_registers_unknown_field_returns_none() {
    let data = vec![input("unknown_field", 42.0)];
    let fields = vec![make_field("value", DataType::U16, 0)];
    let result = encode_fields_to_registers(&data, &fields, 1, ByteOrder::BigEndian);
    assert!(result.is_none());
}

#[test]
fn encode_fields_to_registers_offset_placement() {
    let data = vec![input("value", 123.0)];
    let fields = vec![make_field("value", DataType::U16, 3)];
    let result = encode_fields_to_registers(&data, &fields, 4, ByteOrder::BigEndian);
    assert!(result.is_some());
    let registers = result.unwrap();
    assert_eq!(registers, vec![0, 0, 0, 123]);
}

#[test]
fn encode_refuses_non_numbers_and_overflowing_fields() {
    let fields = vec![make_field("value", DataType::U32, 1)];
    let not_number = vec![FieldInput { name: "value".to_string(), value: None }];
    assert_eq!(encode_fields_to_registers(&not_number, &fields, 3, ByteOrder::BigEndian), None);
    let too_far = vec![input("value", 1.0)];
    assert_eq!(encode_fields_to_registers(&too_far, &fields, 2, ByteOrder::BigEndian), None);
    assert_eq!(
        encode_fields_to_registers(&too_far, &fields, 3, ByteOrder::BigEndian),
        Some(vec![0, 0, 1])
    );
}

#[test]
fn encoded_values_parse_back() {
    let fields = vec![
        make_field("speed", DataType::U32, 0),
        make_field("temp", DataType::I16, 2),
    ];
    let data = vec![input("speed", 70000.0), input("temp", -5.0)];
    for order in [ByteOrder::BigEndian, ByteOrder::LittleEndian, ByteOrder::LittleEndianByteSwap, ByteOrder::MidBig] {
        let regs = encode_fields_to_registers(&data, &fields, 3, order).unwrap();
        let parsed = parse_signal_group_fields(&regs, &fields, order);
        assert_eq!(number(&parsed[0]), 70000.0);
        assert_eq!(number(&parsed[1]), -5.0);
    }
}

#[test]
fn bool_field_is_written_to_the_low_byte() {
    let fields = vec![make_field("on", DataType::Bool, 0)];
    let regs = encode_fields_to_registers(&[input("on", 1.0)], &fields, 1, ByteOrder::BigEndian).unwrap();
    assert_eq!(regs, vec![0x0001]);
    let parsed = parse_signal_group_fields(&regs, &fields, ByteOrder::BigEndian);
    assert_eq!(number(&parsed[0]), 1.0);
}
