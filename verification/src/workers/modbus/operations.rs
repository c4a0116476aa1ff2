//! The four Modbus register types and register address parsing.

use crate::text::{
    decimal_chars, is_white_space, lemma_decimal_chars_denote, lemma_trim_spaces, lemma_trim_unchanged,
    parse_unsigned, parse_unsigned_range, trim, trimmed_chars,
};
use vstd::prelude::*;

verus! {

/// The four kinds of Modbus register.
#[derive(Debug, Clone, Copy, PartialEq, Eq, Structural)]
pub enum RegisterType {
    /// Coil (0x range): one bit, read/write.
    Coil,
    /// Discrete input (1x range): one bit, read-only.
    Discrete,
    /// Input register (3x range): 16 bits, read-only.
    Input,
    /// Holding register (4x range): 16 bits, read/write.
    Holding,
}

impl RegisterType {
    pub open spec fn prefix_char(self) -> char {
        match self {
            RegisterType::Coil => 'c',
            RegisterType::Discrete => 'd',
            RegisterType::Input => 'i',
            RegisterType::Holding => 'h',
        }
    }

    pub open spec fn read_only(self) -> bool {
        self is Discrete || self is Input
    }

    /// The address prefix of this register type.
    pub fn prefix(&self) -> (c: char)
        ensures
            c == self.prefix_char(),
    {
        match self {
            RegisterType::Coil => 'c',
            RegisterType::Discrete => 'd',
            RegisterType::Input => 'i',
            RegisterType::Holding => 'h',
        }
    }

    /// Discrete inputs and input registers are read-only.
    pub fn is_read_only(&self) -> (b: bool)
        ensures
            b == self.read_only(),
    {
        matches!(self, RegisterType::Discrete | RegisterType::Input)
    }

    /// Coils and holding registers are writable.
    pub fn is_writable(&self) -> (b: bool)
        ensures
            b == !self.read_only(),
    {
        matches!(self, RegisterType::Coil | RegisterType::Holding)
    }

    /// The display name: `Coil`, `Discrete`, `Input` or `Holding`.
    pub fn display_name(&self) -> (s: &'static str)
        ensures
            s@ == match self {
                RegisterType::Coil => "Coil"@,
                RegisterType::Discrete => "Discrete"@,
                RegisterType::Input => "Input"@,
                RegisterType::Holding => "Holding"@,
            },
    {
        match self {
            RegisterType::Coil => "Coil",
            RegisterType::Discrete => "Discrete",
            RegisterType::Input => "Input",
            RegisterType::Holding => "Holding",
        }
    }
}

/// The register type that an address's first character selects, if it is a
/// prefix (`h`, `i`, `c`, `d`, either case).
pub open spec fn prefix_type(c: char) -> Option<RegisterType> {
    if c == 'h' || c == 'H' {
        Some(RegisterType::Holding)
    } else if c == 'i' || c == 'I' {
        Some(RegisterType::Input)
    } else if c == 'c' || c == 'C' {
        Some(RegisterType::Coil)
    } else if c == 'd' || c == 'D' {
        Some(RegisterType::Discrete)
    } else {
        None
    }
}

/// The register type and number that the address `s` denotes: after
/// trimming, an optional type prefix (holding when absent) and a number up
/// to 65535.
pub open spec fn register_address(s: Seq<char>) -> Option<(RegisterType, u16)> {
    let t = trim(s);
    if t.len() == 0 {
        None
    } else {
        let rt = match prefix_type(t[0]) {
            Some(x) => x,
            None => RegisterType::Holding,
        };
        let num = if prefix_type(t[0]) is Some {
            t.drop_first()
        } else {
            t
        };
        match parse_unsigned(num, 65535) {
            Some(v) => Some((rt, v as u16)),
            None => None,
        }
    }
}

/// Parses a register address such as `h100`, `C0` or `50` (holding).
pub fn parse_register_address(addr_str: &str) -> (r: Option<(RegisterType, u16)>)
    ensures
        r == register_address(addr_str@),
{
    let t = trimmed_chars(addr_str);
    if t.len() == 0 {
        return None;
    }
    let c = t[0];
    let (reg_type, start) = if c == 'h' || c == 'H' {
        (RegisterType::Holding, 1)
    } else if c == 'i' || c == 'I' {
        (RegisterType::Input, 1)
    } else if c == 'c' || c == 'C' {
        (RegisterType::Coil, 1)
    } else if c == 'd' || c == 'D' {
        (RegisterType::Discrete, 1)
    } else {
        (RegisterType::Holding, 0)
    };
    assert(t@.subrange(1, t@.len() as int) =~= t@.drop_first());
    assert(t@.subrange(0, t@.len() as int) =~= t@);
    match parse_unsigned_range(&t, start, t.len(), 65535) {
        Some(v) => Some((reg_type, v as u16)),
        None => None,
    }
}

/// The prefix of register type `t`, in upper case when `upper`.
pub open spec fn prefix_char(t: RegisterType, upper: bool) -> char {
    match t {
        RegisterType::Holding => if upper { 'H' } else { 'h' },
        RegisterType::Input => if upper { 'I' } else { 'i' },
        RegisterType::Coil => if upper { 'C' } else { 'c' },
        RegisterType::Discrete => if upper { 'D' } else { 'd' },
    }
}

/// Addresses read back: a type prefix in either case followed by the
/// decimal number `n` denotes that type and `n`, also between spaces; the
/// bare number denotes holding register `n`.
pub proof fn lemma_address_round_trip(t: RegisterType, n: u16, upper: bool)
    ensures
        register_address(seq![prefix_char(t, upper)] + decimal_chars(n as nat)) == Some((t, n)),
        register_address(seq![' '] + (seq![prefix_char(t, upper)] + decimal_chars(n as nat)) + seq![' '])
            == Some((t, n)),
        register_address(decimal_chars(n as nat)) == Some((RegisterType::Holding, n)),
{
    let digits = decimal_chars(n as nat);
    lemma_decimal_chars_denote(n as nat);
    let text = seq![prefix_char(t, upper)] + digits;
    assert(text.last() == digits.last());
    assert(crate::text::is_digit(digits.last()));
    assert(crate::text::is_digit(digits[0]));
    assert(!is_white_space(text[0]));
    assert(!is_white_space(digits.last()));
    assert(!is_white_space(digits[0]));
    lemma_trim_unchanged(text);
    lemma_trim_spaces(text);
    lemma_trim_unchanged(digits);
    assert(text.drop_first() =~= digits);
    assert(digits[0] != '+');
    assert(crate::text::unsigned_digits(digits) == digits);
    assert(parse_unsigned(digits, 65535) == Some(n as nat));
    assert(prefix_type(digits[0]) is None);
}

} // verus!
