//! Register address mappings of a device profile.

use crate::config::{ByteOrder, DataType};
use crate::data_conversion::{
    byte_len, convert_byte_order as reorder_bytes, decoded, encoded, reordered, NumericForms,
    RawValue,
};
use crate::text::{encodes_below_two_bytes, is_ascii_char, parse_unsigned, parse_unsigned_range, trim, trimmed_chars};
use crate::config::ascii_lower;
use vstd::prelude::*;

verus! {

/// The four kinds of Modbus register, as a profile names them.
#[derive(Debug, Clone, Copy, PartialEq, Eq, Structural)]
pub enum RegisterType {
    Coil,
    DiscreteInput,
    InputRegister,
    HoldingRegister,
}

/// A register type with an address.
#[derive(Debug, Clone, Copy, PartialEq, Eq, Structural)]
pub struct AddressMapping {
    pub register_type: RegisterType,
    pub address: u16,
}

/// `AddressMapping::parse` slices the trimmed address after its first byte,
/// which panics when that byte starts a multi-byte character.
pub open spec fn mapping_parse_panics(s: Seq<char>) -> bool {
    let t = trim(s);
    !encodes_below_two_bytes(t) && !is_ascii_char(t[0])
}

/// The mapping that the address `s` denotes: after trimming, a prefix
/// `c`, `d`, `i` or `h` (either case) and a number up to 65535.
pub open spec fn address_mapping(s: Seq<char>) -> Option<AddressMapping> {
    let t = trim(s);
    if encodes_below_two_bytes(t) {
        None
    } else {
        match parse_unsigned(t.drop_first(), 65535) {
            None => None,
            Some(v) => {
                let l = ascii_lower(t[0]);
                if l == 'c' {
                    Some(AddressMapping { register_type: RegisterType::Coil, address: v as u16 })
                } else if l == 'd' {
                    Some(
                        AddressMapping {
                            register_type: RegisterType::DiscreteInput,
                            address: v as u16,
                        },
                    )
                } else if l == 'i' {
                    Some(
                        AddressMapping {
                            register_type: RegisterType::InputRegister,
                            address: v as u16,
                        },
                    )
                } else if l == 'h' {
                    Some(
                        AddressMapping {
                            register_type: RegisterType::HoldingRegister,
                            address: v as u16,
                        },
                    )
                } else {
                    None
                }
            },
        }
    }
}

impl AddressMapping {
    /// Whether [`AddressMapping::parse`] cannot take `addr` apart: its
    /// trimmed form is longer than one byte and starts with a multi-byte
    /// character.
    pub fn parse_panics(addr: &str) -> (b: bool)
        ensures
            b == mapping_parse_panics(addr@),
    {
        let t = trimmed_chars(addr);
        !(t.len() == 0 || (t.len() == 1 && (t[0] as u32) < 128)) && (t[0] as u32) >= 128
    }

    /// Parses an address such as `h100` or ` c0 `.
    pub fn parse(addr: &str) -> (r: Option<Self>)
        requires
            !mapping_parse_panics(addr@),
        ensures
            r == address_mapping(addr@),
    {
        let t = trimmed_chars(addr);
        if t.len() == 0 || (t.len() == 1 && (t[0] as u32) < 128) {
            return None;
        }
        assert(t@.subrange(1, t@.len() as int) =~= t@.drop_first());
        let offset = match parse_unsigned_range(&t, 1, t.len(), 65535) {
            Some(v) => v as u16,
            None => {
                return None;
            },
        };
        let c = t[0];
        let l = if 'A' <= c && c <= 'Z' {
            ((c as u8) + 32) as char
        } else {
            c
        };
        let register_type = if l == 'c' {
            RegisterType::Coil
        } else if l == 'd' {
            RegisterType::DiscreteInput
        } else if l == 'i' {
            RegisterType::InputRegister
        } else if l == 'h' {
            RegisterType::HoldingRegister
        } else {
            return None;
        };
        Some(AddressMapping { register_type, address: offset })
    }
}

/// The converter between register bytes and values that profiles use.
pub struct DefaultDataTypeConverter;

impl DefaultDataTypeConverter {
    /// Reads a value of `data_type` from `data` laid out in `byte_order`.
    pub fn decode(data: &[u8], data_type: DataType, byte_order: ByteOrder) -> (r: Option<RawValue>)
        ensures
            r == decoded(data@, data_type, byte_order),
    {
        crate::data_conversion::DefaultDataTypeConverter::decode(data, data_type, byte_order)
    }

    /// The bytes of `value` taken as `data_type`, laid out in `byte_order`.
    pub fn encode(value: &NumericForms, data_type: DataType, byte_order: ByteOrder) -> (r: Option<
        Vec<u8>,
    >)
        ensures
            match r {
                Some(b) => encoded(*value, data_type, byte_order) == Some(b@),
                None => encoded(*value, data_type, byte_order) is None,
            },
    {
        crate::data_conversion::DefaultDataTypeConverter::encode(value, data_type, byte_order)
    }
}

/// The expected byte length of a value of `data_type`.
pub fn bytes_len(data_type: &DataType) -> (r: Option<usize>)
    ensures
        match r {
            Some(n) => byte_len(*data_type) == Some(n as nat),
            None => byte_len(*data_type) is None,
        },
{
    crate::data_conversion::bytes_len(data_type)
}

/// Rearranges `data` for `byte_order` (see the data conversion module).
pub fn convert_byte_order(data: &[u8], byte_order: ByteOrder) -> (r: Vec<u8>)
    ensures
        r@ == reordered(data@, byte_order),
{
    reorder_bytes(data, byte_order)
}

} // verus!
