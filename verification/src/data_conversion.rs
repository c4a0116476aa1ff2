//! Conversion between register bytes and values: byte-order rearrangement,
//! big-endian encodings of the integer types, and 32-bit values split across
//! two registers.
//!
//! A value read from registers is given as a [`RawValue`]: an integer, or
//! the IEEE 754 bit pattern of a 32-bit float.

use crate::config::{ByteOrder, DataType};
use vstd::prelude::*;

verus! {

// ===================== Byte order =====================
/// The input index that output index `i` of a byte-swapped sequence of
/// length `n` takes its byte from: the two bytes of each 16-bit word trade
/// places, and a last lone byte stays.
pub open spec fn swap_source(n: int, i: int) -> int {
    if i % 2 == 0 {
        if i + 1 < n {
            i + 1
        } else {
            i
        }
    } else {
        i - 1
    }
}

/// The input index that output index `i` of a word-swapped sequence of
/// length `n` takes its byte from. Bytes form 16-bit words (the last may be
/// a single byte), words form pairs (the last may be a single word), and the
/// two words of each pair trade places.
pub open spec fn word_swap_source(n: int, i: int) -> int {
    let b = i - i % 4;
    let r = i % 4;
    let len = if n - b < 4 {
        n - b
    } else {
        4
    };
    if len == 4 {
        b + (r + 2) % 4
    } else if len == 3 {
        if r == 0 {
            b + 2
        } else {
            b + r - 1
        }
    } else {
        i
    }
}

/// The bytes of `data` rearranged for `order`.
pub open spec fn reordered(data: Seq<u8>, order: ByteOrder) -> Seq<u8> {
    let n = data.len() as int;
    match order {
        ByteOrder::BigEndian => data,
        ByteOrder::LittleEndian => data.reverse(),
        ByteOrder::LittleEndianByteSwap => Seq::new(data.len(), |i: int| data[swap_source(n, i)]),
        ByteOrder::MidBig => Seq::new(data.len(), |i: int| data[word_swap_source(n, i)]),
    }
}

/// Rearranges `data` for `byte_order`: unchanged for big-endian, reversed for
/// little-endian, bytes swapped within each 16-bit word for
/// little-endian-byte-swap, and 16-bit words swapped within each pair for
/// mid-big.
pub fn convert_byte_order(data: &[u8], byte_order: ByteOrder) -> (r: Vec<u8>)
    ensures
        r@ == reordered(data@, byte_order),
        byte_order_layout(data@, r@, byte_order),
{
    proof {
        lemma_byte_order_layout(data@, byte_order);
    }
    let n = data.len();
    let mut out: Vec<u8> = Vec::new();
    let mut i: usize = 0;
    while i < n
        invariant
            i <= n == data@.len(),
            out@.len() == i,
            forall|k: int| 0 <= k < i ==> #[trigger] out@[k] == reordered(data@, byte_order)[k],
        decreases n - i,
    {
        let src: usize = match byte_order {
            ByteOrder::BigEndian => i,
            ByteOrder::LittleEndian => n - 1 - i,
            ByteOrder::LittleEndianByteSwap => {
                if i % 2 == 0 {
                    if i + 1 < n {
                        i + 1
                    } else {
                        i
                    }
                } else {
                    i - 1
                }
            },
            ByteOrder::MidBig => {
                let b = i - i % 4;
                let r = i % 4;
                let len = if n - b < 4 {
                    n - b
                } else {
                    4
                };
                if len == 4 {
                    b + (r + 2) % 4
                } else if len == 3 {
                    if r == 0 {
                        b + 2
                    } else {
                        b + r - 1
                    }
                } else {
                    i
                }
            },
        };
        out.push(data[src]);
        i = i + 1;
    }
    assert(out@ =~= reordered(data@, byte_order));
    out
}

/// Whether `out` is `data` laid out in `order`, position by position:
/// big-endian keeps every byte; little-endian reverses the bytes at every
/// length; little-endian-byte-swap exchanges the two bytes of each 16-bit
/// word and keeps a last lone byte; mid-big exchanges the two 16-bit words
/// of each group of four bytes, turns a last group of three `a b c` into
/// `c a b`, and keeps a last group of one or two bytes.
pub open spec fn byte_order_layout(data: Seq<u8>, out: Seq<u8>, order: ByteOrder) -> bool {
    let n = data.len() as int;
    &&& out.len() == n
    &&& match order {
        ByteOrder::BigEndian => forall|i: int| 0 <= i < n ==> out[i] == data[i],
        ByteOrder::LittleEndian => forall|i: int| 0 <= i < n ==> #[trigger] out[i] == data[n - 1 - i],
        ByteOrder::LittleEndianByteSwap => {
            &&& forall|w: int|
                0 <= w && 2 * w + 1 < n ==> #[trigger] out[2 * w] == data[2 * w + 1] && out[2 * w + 1]
                    == data[2 * w]
            &&& n % 2 == 1 ==> out[n - 1] == data[n - 1]
        },
        ByteOrder::MidBig => {
            &&& forall|q: int|
                0 <= q && 4 * q + 3 < n ==> {
                    &&& #[trigger] out[4 * q] == data[4 * q + 2]
                    &&& out[4 * q + 1] == data[4 * q + 3]
                    &&& out[4 * q + 2] == data[4 * q]
                    &&& out[4 * q + 3] == data[4 * q + 1]
                }
            &&& n % 4 == 3 ==> out[n - 3] == data[n - 1] && out[n - 2] == data[n - 3] && out[n - 1]
                == data[n - 2]
            &&& n % 4 == 2 ==> out[n - 2] == data[n - 2] && out[n - 1] == data[n - 1]
            &&& n % 4 == 1 ==> out[n - 1] == data[n - 1]
        },
    }
}

/// The rearrangement for each byte order, byte by byte (see
/// [`byte_order_layout`]).
pub proof fn lemma_byte_order_layout(data: Seq<u8>, order: ByteOrder)
    ensures
        byte_order_layout(data, reordered(data, order), order),
{
    let n = data.len() as int;
    let out = reordered(data, order);
    match order {
        ByteOrder::LittleEndianByteSwap => {
            assert forall|w: int| 0 <= w && 2 * w + 1 < n implies #[trigger] out[2 * w] == data[2 * w
                + 1] && out[2 * w + 1] == data[2 * w] by {
                assert((2 * w) % 2 == 0);
                assert((2 * w + 1) % 2 == 1);
            }
            if n % 2 == 1 {
                assert((n - 1) % 2 == 0);
            }
        },
        ByteOrder::MidBig => {
            assert forall|q: int| 0 <= q && 4 * q + 3 < n implies {
                &&& #[trigger] out[4 * q] == data[4 * q + 2]
                &&& out[4 * q + 1] == data[4 * q + 3]
                &&& out[4 * q + 2] == data[4 * q]
                &&& out[4 * q + 3] == data[4 * q + 1]
            } by {
                assert((4 * q) % 4 == 0);
                assert((4 * q + 1) % 4 == 1);
                assert((4 * q + 2) % 4 == 2);
                assert((4 * q + 3) % 4 == 3);
            }
            if n % 4 == 3 {
                assert((n - 3) % 4 == 0);
                assert((n - 2) % 4 == 1);
                assert((n - 1) % 4 == 2);
            }
            if n % 4 == 2 {
                assert((n - 2) % 4 == 0);
                assert((n - 1) % 4 == 1);
            }
            if n % 4 == 1 {
                assert((n - 1) % 4 == 0);
            }
        },
        _ => {},
    }
}

/// A 16-bit value is read from its two bytes `[x, y]` as `x * 256 + y`
/// for big-endian and mid-big, and as `y * 256 + x` for little-endian and
/// little-endian-byte-swap; signed, the same pattern in two's complement.
pub proof fn lemma_decode_16(x: u8, y: u8, order: ByteOrder)
    ensures
        ({
            let u: int = match order {
                ByteOrder::BigEndian | ByteOrder::MidBig => x * 256 + y,
                ByteOrder::LittleEndian | ByteOrder::LittleEndianByteSwap => y * 256 + x,
            };
            &&& decoded(seq![x, y], DataType::U16, order) == Some(RawValue::Integer(u as i64))
            &&& decoded(seq![x, y], DataType::I16, order) == Some(
                RawValue::Integer(signed16(u) as i64),
            )
        }),
{
    let d = seq![x, y];
    lemma_byte_order_layout(d, order);
    let o = reordered(d, order);
    if order == ByteOrder::LittleEndianByteSwap {
        let z: int = 0;
        assert(o[2 * z] == d[2 * z + 1] && o[2 * z + 1] == d[2 * z]);
    }
    if order == ByteOrder::LittleEndian {
        let z: int = 0;
        assert(o[z] == d[2 - 1 - z]);
        assert(o[z + 1] == d[2 - 1 - (z + 1)]);
    }
}

/// A 32-bit value is read from its four bytes `[a, b, c, d]` most
/// significant first after the rearrangement: `a b c d` for big-endian,
/// `d c b a` for little-endian, `b a d c` for little-endian-byte-swap and
/// `c d a b` for mid-big.
pub proof fn lemma_decode_u32(a: u8, b: u8, c: u8, d: u8, order: ByteOrder)
    ensures
        ({
            let w = |p: u8, q: u8, r: u8, s: u8| p * 16777216 + q * 65536 + r * 256 + s;
            let u: int = match order {
                ByteOrder::BigEndian => w(a, b, c, d),
                ByteOrder::LittleEndian => w(d, c, b, a),
                ByteOrder::LittleEndianByteSwap => w(b, a, d, c),
                ByteOrder::MidBig => w(c, d, a, b),
            };
            decoded(seq![a, b, c, d], DataType::U32, order) == Some(RawValue::Integer(u as i64))
        }),
{
    let v = seq![a, b, c, d];
    lemma_byte_order_layout(v, order);
    let o = reordered(v, order);
    match order {
        ByteOrder::LittleEndian => {
            let z: int = 0;
            assert(o[z] == v[4 - 1 - z]);
            assert(o[z + 1] == v[4 - 1 - (z + 1)]);
            assert(o[z + 2] == v[4 - 1 - (z + 2)]);
            assert(o[z + 3] == v[4 - 1 - (z + 3)]);
        },
        ByteOrder::LittleEndianByteSwap => {
            let z: int = 0;
            let e: int = 1;
            assert(o[2 * z] == v[2 * z + 1] && o[2 * z + 1] == v[2 * z]);
            assert(o[2 * e] == v[2 * e + 1] && o[2 * e + 1] == v[2 * e]);
        },
        ByteOrder::MidBig => {
            let z: int = 0;
            assert(o[4 * z] == v[4 * z + 2]);
        },
        _ => {},
    }
}

/// Rearranging twice gives the bytes back, for every order but a
/// word swap of a length that leaves three bytes in the last group of four.
pub proof fn lemma_reorder_involutive(data: Seq<u8>, order: ByteOrder)
    requires
        order == ByteOrder::MidBig ==> data.len() % 4 != 3,
    ensures
        reordered(reordered(data, order), order) == data,
{
    let n = data.len() as int;
    match order {
        ByteOrder::BigEndian => {},
        ByteOrder::LittleEndian => {
            assert(data.reverse().reverse() =~= data);
        },
        ByteOrder::LittleEndianByteSwap => {
            assert(reordered(reordered(data, order), order) =~= data);
        },
        ByteOrder::MidBig => {
            assert forall|i: int| 0 <= i < n implies #[trigger] word_swap_source(
                n,
                word_swap_source(n, i),
            ) == i by {
                let b = i - i % 4;
                assert(n - b != 3);
            }
            assert(reordered(reordered(data, order), order) =~= data);
        },
    }
}


/// The input index that output index `i` of `n` bytes reordered for
/// `order` takes its byte from.
pub open spec fn reorder_source(n: int, order: ByteOrder, i: int) -> int {
    match order {
        ByteOrder::BigEndian => i,
        ByteOrder::LittleEndian => n - 1 - i,
        ByteOrder::LittleEndianByteSwap => swap_source(n, i),
        ByteOrder::MidBig => word_swap_source(n, i),
    }
}

/// Reordering only moves bytes: every output byte is the input byte at
/// [`reorder_source`], and distinct outputs come from distinct inputs, so
/// the output is a permutation of the input, whatever its length.
pub proof fn lemma_reorder_is_permutation(data: Seq<u8>, order: ByteOrder)
    ensures
        reordered(data, order).len() == data.len(),
        forall|i: int|
            0 <= i < data.len() ==> {
                &&& 0 <= #[trigger] reorder_source(data.len() as int, order, i) < data.len()
                &&& reordered(data, order)[i] == data[reorder_source(data.len() as int, order, i)]
            },
        forall|i: int, j: int|
            0 <= i < j < data.len() ==> #[trigger] reorder_source(data.len() as int, order, i)
                != #[trigger] reorder_source(data.len() as int, order, j),
{
    let n = data.len() as int;
    assert forall|i: int| 0 <= i < n implies {
        &&& 0 <= #[trigger] reorder_source(n, order, i) < n
        &&& reordered(data, order)[i] == data[reorder_source(n, order, i)]
    } by {
        if order == ByteOrder::LittleEndian {
            assert(data.reverse()[i] == data[n - 1 - i]);
        }
    }
    assert forall|i: int, j: int| 0 <= i < j < n implies #[trigger] reorder_source(n, order, i)
        != #[trigger] reorder_source(n, order, j) by {
        if order == ByteOrder::MidBig {
            let bi = i - i % 4;
            let bj = j - j % 4;
            if bi != bj {
                assert(bi + 4 <= bj || bj + 4 <= bi);
            }
        }
    }
}

// ===================== Values =====================
/// A value read from registers: an integer, or the IEEE 754 bit pattern of
/// a 32-bit float.
#[derive(Debug, Clone, Copy, PartialEq, Eq, Structural)]
pub enum RawValue {
    Integer(i64),
    Float32Bits(u32),
}

/// A number taken in every integer form that a field can hold, as the casts
/// `value as u16`, `value as u32`, `value as i16`, `value as i32`, the bits
/// of `value as f32`, and `value != 0` give them.
#[derive(Debug, Clone, Copy, PartialEq, Eq, Structural)]
pub struct NumericForms {
    pub as_u16: u16,
    pub as_u32: u32,
    pub as_i16: i16,
    pub as_i32: i32,
    pub f32_bits: u32,
    pub nonzero: bool,
}

/// The number of bytes a value of `t` takes; `None` for a type that the
/// converter does not handle (64-bit floats).
pub open spec fn byte_len(t: DataType) -> Option<nat> {
    match t {
        DataType::U16 | DataType::I16 => Some(2),
        DataType::U32 | DataType::I32 | DataType::F32 => Some(4),
        DataType::Bool => Some(1),
        DataType::F64 => None,
    }
}

/// The expected byte length of a value of `data_type`.
pub fn bytes_len(data_type: &DataType) -> (r: Option<usize>)
    ensures
        match r {
            Some(n) => byte_len(*data_type) == Some(n as nat),
            None => byte_len(*data_type) is None,
        },
{
    match data_type {
        DataType::U16 | DataType::I16 => Some(2),
        DataType::U32 | DataType::I32 | DataType::F32 => Some(4),
        DataType::Bool => Some(1),
        DataType::F64 => None,
    }
}

pub open spec fn be16(b: Seq<u8>) -> int {
    b[0] * 256 + b[1]
}

pub open spec fn be32(b: Seq<u8>) -> int {
    b[0] * 16777216 + b[1] * 65536 + b[2] * 256 + b[3]
}

/// Two's complement reading of a 16-bit pattern.
pub open spec fn signed16(u: int) -> int {
    if u >= 32768 {
        u - 65536
    } else {
        u
    }
}

/// Two's complement reading of a 32-bit pattern.
pub open spec fn signed32(u: int) -> int {
    if u >= 2147483648 {
        u - 4294967296
    } else {
        u
    }
}

/// The value of the big-endian bytes `b` as `t`.
pub open spec fn value_of(b: Seq<u8>, t: DataType) -> RawValue {
    match t {
        DataType::U16 => RawValue::Integer(be16(b) as i64),
        DataType::U32 => RawValue::Integer(be32(b) as i64),
        DataType::I16 => RawValue::Integer(signed16(be16(b)) as i64),
        DataType::I32 => RawValue::Integer(signed32(be32(b)) as i64),
        DataType::F32 => RawValue::Float32Bits(be32(b) as u32),
        DataType::Bool | DataType::F64 => RawValue::Integer(
            if b[0] != 0 {
                1
            } else {
                0
            },
        ),
    }
}

/// What the converter reads from `data`: `None` unless `t` is handled and
/// `data` has its length; otherwise the value of the bytes rearranged for
/// `order`, read big-endian.
pub open spec fn decoded(data: Seq<u8>, t: DataType, order: ByteOrder) -> Option<RawValue> {
    match byte_len(t) {
        Some(n) => if data.len() == n {
            Some(value_of(reordered(data, order), t))
        } else {
            None
        },
        None => None,
    }
}

pub open spec fn be16_bytes(v: int) -> Seq<u8> {
    seq![(v / 256) as u8, (v % 256) as u8]
}

pub open spec fn be32_bytes(v: int) -> Seq<u8> {
    seq![(v / 16777216) as u8, ((v / 65536) % 256) as u8, ((v / 256) % 256) as u8, (v % 256) as u8]
}

/// The big-endian bytes of `f` taken as `t`; `None` for 64-bit floats.
pub open spec fn canonical_bytes(f: NumericForms, t: DataType) -> Option<Seq<u8>> {
    match t {
        DataType::U16 => Some(be16_bytes(f.as_u16 as int)),
        DataType::U32 => Some(be32_bytes(f.as_u32 as int)),
        DataType::I16 => Some(
            be16_bytes(
                if f.as_i16 < 0 {
                    f.as_i16 + 65536
                } else {
                    f.as_i16 as int
                },
            ),
        ),
        DataType::I32 => Some(
            be32_bytes(
                if f.as_i32 < 0 {
                    f.as_i32 + 4294967296
                } else {
                    f.as_i32 as int
                },
            ),
        ),
        DataType::F32 => Some(be32_bytes(f.f32_bits as int)),
        DataType::Bool => Some(
            seq![
                if f.nonzero {
                    1u8
                } else {
                    0u8
                },
            ],
        ),
        DataType::F64 => None,
    }
}

/// What the converter writes for `f` as `t`: its big-endian bytes rearranged
/// for `order`.
pub open spec fn encoded(f: NumericForms, t: DataType, order: ByteOrder) -> Option<Seq<u8>> {
    match canonical_bytes(f, t) {
        Some(b) => Some(reordered(b, order)),
        None => None,
    }
}

/// The value that `f` stands for as `t`.
pub open spec fn value_of_forms(f: NumericForms, t: DataType) -> RawValue {
    match t {
        DataType::U16 => RawValue::Integer(f.as_u16 as i64),
        DataType::U32 => RawValue::Integer(f.as_u32 as i64),
        DataType::I16 => RawValue::Integer(f.as_i16 as i64),
        DataType::I32 => RawValue::Integer(f.as_i32 as i64),
        DataType::F32 => RawValue::Float32Bits(f.f32_bits),
        DataType::Bool | DataType::F64 => RawValue::Integer(
            if f.nonzero {
                1
            } else {
                0
            },
        ),
    }
}

fn be16_push(out: &mut Vec<u8>, v: u16)
    ensures
        final(out)@ == old(out)@ + be16_bytes(v as int),
{
    out.push((v / 256) as u8);
    out.push((v % 256) as u8);
    assert(final(out)@ =~= old(out)@ + be16_bytes(v as int));
}

fn be32_push(out: &mut Vec<u8>, v: u32)
    ensures
        final(out)@ == old(out)@ + be32_bytes(v as int),
{
    out.push((v / 16777216) as u8);
    out.push(((v / 65536) % 256) as u8);
    out.push(((v / 256) % 256) as u8);
    out.push((v % 256) as u8);
    assert(final(out)@ =~= old(out)@ + be32_bytes(v as int));
}

/// The converter between register bytes and values.
pub struct DefaultDataTypeConverter;

impl DefaultDataTypeConverter {
    /// Reads a value of `data_type` from `data` laid out in `byte_order`.
    pub fn decode(data: &[u8], data_type: DataType, byte_order: ByteOrder) -> (r: Option<
        RawValue,
    >)
        ensures
            r == decoded(data@, data_type, byte_order),
    {
        let expected_len = match bytes_len(&data_type) {
            Some(n) => n,
            None => {
                return None;
            },
        };
        if data.len() != expected_len {
            return None;
        }
        let o = convert_byte_order(data, byte_order);
        let w16 = |o: &Vec<u8>| -> (r: u32)
            requires
                o.len() >= 2,
            ensures
                r == be16(o@),
            { o[0] as u32 * 256 + o[1] as u32 };
        match data_type {
            DataType::U16 => Some(RawValue::Integer(w16(&o) as i64)),
            DataType::I16 => {
                let u = w16(&o) as i64;
                Some(RawValue::Integer(if u >= 32768 { u - 65536 } else { u }))
            },
            DataType::U32 | DataType::I32 | DataType::F32 => {
                let u: u64 = o[0] as u64 * 16777216 + o[1] as u64 * 65536 + o[2] as u64 * 256
                    + o[3] as u64;
                match data_type {
                    DataType::U32 => Some(RawValue::Integer(u as i64)),
                    DataType::I32 => Some(
                        RawValue::Integer(
                            if u >= 2147483648 {
                                u as i64 - 4294967296
                            } else {
                                u as i64
                            },
                        ),
                    ),
                    _ => Some(RawValue::Float32Bits(u as u32)),
                }
            },
            _ => Some(RawValue::Integer(if o[0] != 0 { 1 } else { 0 })),
        }
    }

    /// The bytes of `value` taken as `data_type`, laid out in `byte_order`;
    /// `None` for 64-bit floats.
    pub fn encode(value: &NumericForms, data_type: DataType, byte_order: ByteOrder) -> (r: Option<
        Vec<u8>,
    >)
        ensures
            match r {
                Some(b) => encoded(*value, data_type, byte_order) == Some(b@),
                None => encoded(*value, data_type, byte_order) is None,
            },
    {
        let mut canonical: Vec<u8> = Vec::new();
        match data_type {
            DataType::U16 => be16_push(&mut canonical, value.as_u16),
            DataType::U32 => be32_push(&mut canonical, value.as_u32),
            DataType::I16 => {
                let v: u16 = if value.as_i16 < 0 {
                    (value.as_i16 as i32 + 65536) as u16
                } else {
                    value.as_i16 as u16
                };
                be16_push(&mut canonical, v);
            },
            DataType::I32 => {
                let v: u32 = if value.as_i32 < 0 {
                    (value.as_i32 as i64 + 4294967296) as u32
                } else {
                    value.as_i32 as u32
                };
                be32_push(&mut canonical, v);
            },
            DataType::F32 => be32_push(&mut canonical, value.f32_bits),
            DataType::Bool => canonical.push(if value.nonzero { 1u8 } else { 0u8 }),
            DataType::F64 => {
                return None;
            },
        }
        assert(canonical_bytes(*value, data_type) == Some(canonical@));
        Some(convert_byte_order(canonical.as_slice(), byte_order))
    }
}

proof fn lemma_be16_roundtrip(v: u16)
    ensures
        be16(be16_bytes(v as int)) == v,
        be16_bytes(v as int).len() == 2,
{
    assert(v == (v / 256) * 256 + v % 256 && v / 256 < 256) by (bit_vector);
}

proof fn lemma_be32_roundtrip(v: u32)
    ensures
        be32(be32_bytes(v as int)) == v,
        be32_bytes(v as int).len() == 4,
{
    assert(v == (v / 16777216) * 16777216 + ((v / 65536) % 256) * 65536 + ((v / 256) % 256) * 256
        + v % 256 && v / 16777216 < 256) by (bit_vector);
}

/// Reading back what was written gives the value written, for every type the
/// converter handles and every byte order.
pub proof fn lemma_encode_decode_roundtrip(f: NumericForms, t: DataType, order: ByteOrder)
    requires
        t != DataType::F64,
    ensures
        encoded(f, t, order) matches Some(b) && decoded(b, t, order) == Some(value_of_forms(f, t)),
{
    let c = canonical_bytes(f, t).unwrap();
    match t {
        DataType::U16 => lemma_be16_roundtrip(f.as_u16),
        DataType::U32 => lemma_be32_roundtrip(f.as_u32),
        DataType::F32 => lemma_be32_roundtrip(f.f32_bits),
        DataType::I16 => {
            let u: u16 = if f.as_i16 < 0 {
                (f.as_i16 + 65536) as u16
            } else {
                f.as_i16 as u16
            };
            lemma_be16_roundtrip(u);
        },
        DataType::I32 => {
            let u: u32 = if f.as_i32 < 0 {
                (f.as_i32 + 4294967296) as u32
            } else {
                f.as_i32 as u32
            };
            lemma_be32_roundtrip(u);
        },
        _ => {},
    }
    lemma_reorder_involutive(c, order);
    assert(decoded(reordered(c, order), t, order) == Some(value_of(c, t)));
}

// ===================== Register pairs =====================
/// Two 16-bit registers that hold one 32-bit value, high word first.
#[derive(Debug, Clone, Copy, Default)]
pub struct RegisterPair {
    pub high: u16,
    pub low: u16,
}

impl RegisterPair {
    pub fn new(high: u16, low: u16) -> (r: Self)
        ensures
            r.high == high,
            r.low == low,
    {
        RegisterPair { high, low }
    }

    /// `high * 65536 + low`.
    pub fn to_u32(&self) -> (r: u32)
        ensures
            r == self.high * 65536 + self.low,
    {
        let h = self.high as u32;
        let l = self.low as u32;
        let r = (h << 16) | l;
        assert(r == h * 65536 + l) by (bit_vector)
            requires
                h < 65536,
                l < 65536,
                r == (h << 16) | l,
        ;
        r
    }

    /// The two's complement reading of [`Self::to_u32`].
    pub fn to_i32(&self) -> (r: i32)
        ensures
            r == signed32(self.high * 65536 + self.low),
    {
        let u = self.to_u32();
        let r = u as i32;
        assert(r == if u >= 0x8000_0000 { u - 0x1_0000_0000 } else { u as int }) by (bit_vector)
            requires
                r == u as i32,
        ;
        r
    }
}

} // verus!
