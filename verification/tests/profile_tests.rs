use roboplc_middleware::config::{ByteOrder, DataType};
use roboplc_middleware::profiles::device_profile::{
    bytes_len, convert_byte_order, AddressMapping, RegisterType,
};

#[test]
fn parse_address_mapping() {
    assert_eq!(
        AddressMapping::parse("h100"),
        Some(AddressMapping { register_type: RegisterType::HoldingRegister, address: 100 })
    );
    assert_eq!(
        AddressMapping::parse(" c0 "),
        Some(AddressMapping { register_type: RegisterType::Coil, address: 0 })
    );
    assert_eq!(
        AddressMapping::parse("i50"),
        Some(AddressMapping { register_type: RegisterType::InputRegister, address: 50 })
    );
    assert_eq!(
        AddressMapping::parse("d5"),
        Some(AddressMapping { register_type: RegisterType::DiscreteInput, address: 5 })
    );
    assert_eq!(AddressMapping::parse("x10"), None);
    assert_eq!(AddressMapping::parse("h"), None);
}

#[test]
fn convert_endianness_variants() {
    let input = [0x11, 0x22, 0x33, 0x44];
    assert_eq!(convert_byte_order(&input, ByteOrder::BigEndian), vec![0x11, 0x22, 0x33, 0x44]);
    assert_eq!(convert_byte_order(&input, ByteOrder::LittleEndian), vec![0x44, 0x33, 0x22, 0x11]);
    assert_eq!(
        convert_byte_order(&input, ByteOrder::LittleEndianByteSwap),
        vec![0x22, 0x11, 0x44, 0x33]
    );
    assert_eq!(convert_byte_order(&input, ByteOrder::MidBig), vec![0x33, 0x44, 0x11, 0x22]);
}

#[test]
fn address_mapping_edge_cases() {
    assert_eq!(
        AddressMapping::parse("H65535"),
        Some(AddressMapping { register_type: RegisterType::HoldingRegister, address: 65535 })
    );
    assert_eq!(AddressMapping::parse("h65536"), None);
    assert_eq!(AddressMapping::parse(""), None);
    assert!(!AddressMapping::parse_panics("h1"));
    assert!(AddressMapping::parse_panics("ä1"));
    assert!(AddressMapping::parse_panics("ä"));
    assert_eq!(bytes_len(&DataType::I32), Some(4));
}
