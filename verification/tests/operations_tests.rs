use roboplc_middleware::workers::modbus::operations::{parse_register_address, RegisterType};

#[test]
fn parse_coil_address_with_c_prefix() {
    let result = parse_register_address("c0");
    assert_eq!(result, Some((RegisterType::Coil, 0)));
    let result = parse_register_address("C100");
    assert_eq!(result, Some((RegisterType::Coil, 100)));
}

#[test]
fn parse_discrete_address_with_d_prefix() {
    let result = parse_register_address("d5");
    assert_eq!(result, Some((RegisterType::Discrete, 5)));
    let result = parse_register_address("D50");
    assert_eq!(result, Some((RegisterType::Discrete, 50)));
}

#[test]
fn parse_input_address_with_i_prefix() {
    let result = parse_register_address("i50");
    assert_eq!(result, Some((RegisterType::Input, 50)));
    let result = parse_register_address("I200");
    assert_eq!(result, Some((RegisterType::Input, 200)));
}

#[test]
fn parse_holding_address_with_h_prefix() {
    let result = parse_register_address("h100");
    assert_eq!(result, Some((RegisterType::Holding, 100)));
    let result = parse_register_address("H4000");
    assert_eq!(result, Some((RegisterType::Holding, 4000)));
}

#[test]
fn parse_address_without_prefix_defaults_to_holding() {
    let result = parse_register_address("100");
    assert_eq!(result, Some((RegisterType::Holding, 100)));
    let result = parse_register_address("0");
    assert_eq!(result, Some((RegisterType::Holding, 0)));
    let result = parse_register_address("65535");
    assert_eq!(result, Some((RegisterType::Holding, 65535)));
}

#[test]
fn parse_empty_address_returns_none() {
    assert_eq!(parse_register_address(""), None);
    assert_eq!(parse_register_address("   "), None);
}

#[test]
fn parse_invalid_number_returns_none() {
    assert_eq!(parse_register_address("habc"), None);
    assert_eq!(parse_register_address("xyz"), None);
    assert_eq!(parse_register_address("h-1"), None);
    assert_eq!(parse_register_address("h999999"), None);
}

#[test]
fn register_type_display() {
    assert_eq!(RegisterType::Coil.display_name(), "Coil");
    assert_eq!(RegisterType::Discrete.display_name(), "Discrete");
    assert_eq!(RegisterType::Input.display_name(), "Input");
    assert_eq!(RegisterType::Holding.display_name(), "Holding");
}

#[test]
fn register_type_prefix() {
    assert_eq!(RegisterType::Coil.prefix(), 'c');
    assert_eq!(RegisterType::Discrete.prefix(), 'd');
    assert_eq!(RegisterType::Input.prefix(), 'i');
    assert_eq!(RegisterType::Holding.prefix(), 'h');
}

#[test]
fn register_type_is_read_only() {
    assert!(!RegisterType::Coil.is_read_only());
    assert!(RegisterType::Discrete.is_read_only());
    assert!(RegisterType::Input.is_read_only());
    assert!(!RegisterType::Holding.is_read_only());
}

#[test]
fn register_type_is_writable() {
    assert!(RegisterType::Coil.is_writable());
    assert!(!RegisterType::Discrete.is_writable());
    assert!(!RegisterType::Input.is_writable());
    assert!(RegisterType::Holding.is_writable());
}

#[test]
fn parse_register_address_handles_whitespace_and_plus() {
    assert_eq!(parse_register_address("  h12  "), Some((RegisterType::Holding, 12)));
    assert_eq!(parse_register_address("h+7"), Some((RegisterType::Holding, 7)));
    assert_eq!(parse_register_address("h"), None);
    assert_eq!(parse_register_address("65536"), None);
}

#[test]
fn parse_register_address_handles_prefixes() {
    assert_eq!(parse_register_address("h100").map(|(_, addr)| addr), Some(100));
    assert_eq!(parse_register_address("H200").map(|(_, addr)| addr), Some(200));
    assert_eq!(parse_register_address("i50").map(|(_, addr)| addr), Some(50));
    assert_eq!(parse_register_address("c10").map(|(_, addr)| addr), Some(10));
    assert_eq!(parse_register_address("d5").map(|(_, addr)| addr), Some(5));
    assert_eq!(parse_register_address("100").map(|(_, addr)| addr), Some(100));
}
