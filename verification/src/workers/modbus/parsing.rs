//! Signal groups read and written as a whole: the registers of a group are
//! read in one operation and its fields are then parsed from them in
//! memory; a write encodes every given field into the group's registers.

use crate::config::{field_end, ByteOrder, DataType, FieldMapping};
use crate::data_conversion::{
    byte_len, decoded, encoded, lemma_encode_decode_roundtrip, value_of_forms,
    DefaultDataTypeConverter, NumericForms, RawValue,
};
use vstd::prelude::*;

verus! {

/// A field value parsed from a signal group's registers.
#[derive(Debug, Clone)]
pub struct ParsedField {
    pub name: String,
    pub value: RawValue,
    pub data_type: DataType,
}

/// A value to write to the field called `name`: its numeric forms, or `None`
/// when the given value is not a number.
#[derive(Debug, Clone)]
pub struct FieldInput {
    pub name: String,
    pub value: Option<NumericForms>,
}

pub open spec fn high_byte(r: u16) -> u8 {
    (r / 256) as u8
}

pub open spec fn low_byte(r: u16) -> u8 {
    (r % 256) as u8
}

/// The registers of `regs` from `offset` on that a read of `count` bytes
/// covers, cut off at the end of `regs`.
pub open spec fn covered_registers(regs: Seq<u16>, offset: int, count: int) -> Seq<u16> {
    let needed = (count + 1) / 2;
    let end = if offset + needed < regs.len() {
        offset + needed
    } else {
        regs.len() as int
    };
    if offset < end {
        regs.subrange(offset, end)
    } else {
        Seq::empty()
    }
}

/// The bytes of the covered registers: the low byte of each for a one-byte
/// read, otherwise high byte then low byte of each.
pub open spec fn register_bytes(rs: Seq<u16>, count: int) -> Seq<u8> {
    if count == 1 {
        Seq::new(rs.len(), |k: int| low_byte(rs[k]))
    } else {
        Seq::new(
            2 * rs.len(),
            |k: int|
                if k % 2 == 0 {
                    high_byte(rs[k / 2])
                } else {
                    low_byte(rs[k / 2])
                },
        )
    }
}

/// At most `count` bytes read from `regs` starting at register `offset`.
pub open spec fn extracted(regs: Seq<u16>, offset: int, count: int) -> Seq<u8> {
    let b = register_bytes(covered_registers(regs, offset, count), count);
    if b.len() <= count {
        b
    } else {
        b.take(count)
    }
}

/// Reads up to `byte_count` bytes from `registers` starting at register
/// `offset`: the low byte of one register for a one-byte read, otherwise
/// big-endian bytes of consecutive registers, cut at the end of the registers.
pub fn extract_bytes_from_registers(registers: &[u16], offset: usize, byte_count: usize) -> (r: Vec<
    u8,
>)
    requires
        byte_count < usize::MAX,
        offset + (byte_count + 1) / 2 <= usize::MAX,
    ensures
        r@ == extracted(registers@, offset as int, byte_count as int),
{
    let mut bytes: Vec<u8> = Vec::new();
    let registers_needed = (byte_count + 1) / 2;
    let ghost rs = covered_registers(registers@, offset as int, byte_count as int);
    let ghost all = register_bytes(rs, byte_count as int);
    let mut i: usize = 0;
    while i < registers_needed
        invariant
            i <= registers_needed == (byte_count + 1) / 2,
            offset + registers_needed <= usize::MAX,
            rs == covered_registers(registers@, offset as int, byte_count as int),
            all == register_bytes(rs, byte_count as int),
            bytes@ == all.take(
                if byte_count == 1 {
                    if i < rs.len() {
                        i as int
                    } else {
                        rs.len() as int
                    }
                } else {
                    2 * (if i < rs.len() {
                        i as int
                    } else {
                        rs.len() as int
                    })
                },
            ),
        decreases registers_needed - i,
    {
        if offset + i < registers.len() {
            let reg = registers[offset + i];
            assert(rs[i as int] == reg);
            if byte_count == 1 {
                bytes.push((reg % 256) as u8);
                assert(bytes@ =~= all.take(i + 1));
            } else {
                bytes.push((reg / 256) as u8);
                bytes.push((reg % 256) as u8);
                assert(bytes@ =~= all.take(2 * i + 2));
            }
        }
        i = i + 1;
    }
    assert(bytes@ =~= all);
    bytes.truncate(byte_count);
    assert(bytes@ =~= extracted(registers@, offset as int, byte_count as int));
    bytes
}

/// The 16-bit words of `b`, big-endian, two bytes each; a last lone byte
/// becomes a word of its own value.
pub open spec fn words_of(b: Seq<u8>) -> Seq<u16> {
    Seq::new(
        ((b.len() + 1) / 2) as nat,
        |k: int|
            if 2 * k + 1 < b.len() {
                (b[2 * k] * 256 + b[2 * k + 1]) as u16
            } else {
                b[2 * k] as u16
            },
    )
}

/// Groups bytes into big-endian 16-bit registers.
pub fn bytes_to_registers(bytes: &[u8]) -> (r: Vec<u16>)
    ensures
        r@ == words_of(bytes@),
{
    let mut registers: Vec<u16> = Vec::new();
    let n = bytes.len();
    let mut i: usize = 0;
    while i < n
        invariant
            i <= n == bytes@.len(),
            i % 2 == 0 || i == n,
            registers@ == words_of(bytes@).take(((i + 1) / 2) as int),
        decreases n - i,
    {
        let high = bytes[i];
        if i + 1 < n {
            let low = bytes[i + 1];
            registers.push(((high as u16) << 8) | (low as u16));
            assert((((high as u16) << 8) | (low as u16)) == high * 256 + low) by (bit_vector);
            assert(registers@ =~= words_of(bytes@).take(((i + 1) / 2 + 1) as int));
            i = i + 2;
        } else {
            registers.push(high as u16);
            assert(registers@ =~= words_of(bytes@).take(((i + 1) / 2 + 1) as int));
            i = i + 1;
        }
    }
    assert(registers@ =~= words_of(bytes@));
    registers
}


/// The number of bytes a field of type `t` is read as.
pub open spec fn field_byte_count(t: DataType) -> int {
    match t {
        DataType::Bool => 1,
        DataType::U16 | DataType::I16 => 2,
        DataType::U32 | DataType::I32 | DataType::F32 => 4,
        DataType::F64 => 8,
    }
}

/// The value of field `f` in `regs`: `None` when the field reaches past the
/// registers or its type is not converted.
pub open spec fn field_reading(regs: Seq<u16>, f: FieldMapping, order: ByteOrder) -> Option<
    RawValue,
> {
    if f.offset + f.data_type.registers() > regs.len() {
        None
    } else {
        decoded(extracted(regs, f.offset as int, field_byte_count(f.data_type)), f.data_type, order)
    }
}

pub open spec fn parsed_view(p: ParsedField) -> (Seq<char>, RawValue, DataType) {
    (p.name@, p.value, p.data_type)
}

/// Name, value and type of every field of `fields` that can be read from
/// `regs`, in the order of `fields`.
pub open spec fn parsed_fields(regs: Seq<u16>, fields: Seq<FieldMapping>, order: ByteOrder) -> Seq<
    (Seq<char>, RawValue, DataType),
>
    decreases fields.len(),
{
    if fields.len() == 0 {
        Seq::empty()
    } else {
        let prev = parsed_fields(regs, fields.drop_last(), order);
        let f = fields.last();
        match field_reading(regs, f, order) {
            Some(v) => prev.push((f.name@, v, f.data_type)),
            None => prev,
        }
    }
}

fn byte_count_of(t: DataType) -> (n: usize)
    ensures
        n == field_byte_count(t),
{
    match t {
        DataType::Bool => 1,
        DataType::U16 | DataType::I16 => 2,
        DataType::U32 | DataType::I32 | DataType::F32 => 4,
        DataType::F64 => 8,
    }
}

/// Parses the fields of a signal group from its registers. A field that
/// reaches past the registers, or whose type is not converted, is left out.
pub fn parse_signal_group_fields(
    registers: &[u16],
    fields: &[FieldMapping],
    byte_order: ByteOrder,
) -> (r: Vec<ParsedField>)
    ensures
        r@.map_values(|p: ParsedField| parsed_view(p)) == parsed_fields(
            registers@,
            fields@,
            byte_order,
        ),
{
    let mut results: Vec<ParsedField> = Vec::new();
    let n = fields.len();
    let mut i: usize = 0;
    assert(fields@.take(0) =~= Seq::<FieldMapping>::empty());
    while i < n
        invariant
            i <= n == fields@.len(),
            results@.map_values(|p: ParsedField| parsed_view(p)) == parsed_fields(
                registers@,
                fields@.take(i as int),
                byte_order,
            ),
        decreases n - i,
    {
        let field = &fields[i];
        assert(fields@.take(i + 1).drop_last() =~= fields@.take(i as int));
        assert(fields@.take(i + 1).last() == *field);
        let required = field.data_type.required_registers();
        let ghost before = results@;
        if (field.offset as usize) + (required as usize) <= registers.len() {
            let bytes = extract_bytes_from_registers(
                registers,
                field.offset as usize,
                byte_count_of(field.data_type),
            );
            match DefaultDataTypeConverter::decode(bytes.as_slice(), field.data_type, byte_order) {
                Some(value) => {
                    results.push(
                        ParsedField {
                            name: field.name.clone(),
                            value,
                            data_type: field.data_type,
                        },
                    );
                    assert(results@.map_values(|p: ParsedField| parsed_view(p)) =~= before.map_values(
                        |p: ParsedField| parsed_view(p),
                    ).push((field.name@, value, field.data_type)));
                },
                None => {},
            }
        }
        i = i + 1;
    }
    assert(fields@.take(n as int) =~= fields@);
    results
}

/// The first field of `fields` from index `j` on that is called `name`.
pub open spec fn field_named(fields: Seq<FieldMapping>, name: Seq<char>, j: int) -> Option<
    FieldMapping,
>
    decreases fields.len() - j,
{
    if 0 <= j < fields.len() {
        if fields[j].name@ == name {
            Some(fields[j])
        } else {
            field_named(fields, name, j + 1)
        }
    } else {
        None
    }
}

/// `regs` with `words` written from index `offset` on.
pub open spec fn placed(regs: Seq<u16>, offset: int, words: Seq<u16>) -> Seq<u16> {
    Seq::new(
        regs.len(),
        |k: int|
            if offset <= k < offset + words.len() {
                words[k - offset]
            } else {
                regs[k]
            },
    )
}

/// How encoding field values into a group's registers ends.
pub enum EncodeOutcome {
    Done(Seq<u16>),
    Rejected,
    /// A field ends past the group only when its end is counted without
    /// saturation; the write indexes past the register buffer and panics.
    Panics,
}

/// Writes `input` into `regs`: rejected when no field has its name, its
/// value is not a number, its type is not converted, or it ends past the
/// group.
pub open spec fn write_step(
    regs: Seq<u16>,
    input: FieldInput,
    fields: Seq<FieldMapping>,
    count: u16,
    order: ByteOrder,
) -> EncodeOutcome {
    match field_named(fields, input.name@, 0) {
        None => EncodeOutcome::Rejected,
        Some(f) => match input.value {
            None => EncodeOutcome::Rejected,
            Some(v) => match encoded(v, f.data_type, order) {
                None => EncodeOutcome::Rejected,
                Some(b) => if field_end(f) > count {
                    EncodeOutcome::Rejected
                } else if f.offset + words_of(b).len() > count {
                    EncodeOutcome::Panics
                } else {
                    EncodeOutcome::Done(placed(regs, f.offset as int, words_of(b)))
                },
            },
        },
    }
}

/// The registers of a group of `count` registers, all zero at first, after
/// `inputs` are written in order.
pub open spec fn encoded_registers(
    inputs: Seq<FieldInput>,
    fields: Seq<FieldMapping>,
    count: u16,
    order: ByteOrder,
) -> EncodeOutcome
    decreases inputs.len(),
{
    if inputs.len() == 0 {
        EncodeOutcome::Done(Seq::new(count as nat, |k: int| 0u16))
    } else {
        match encoded_registers(inputs.drop_last(), fields, count, order) {
            EncodeOutcome::Done(regs) => write_step(regs, inputs.last(), fields, count, order),
            other => other,
        }
    }
}

fn find_field<'a>(fields: &'a [FieldMapping], name: &String) -> (r: Option<&'a FieldMapping>)
    ensures
        match r {
            Some(f) => field_named(fields@, name@, 0) == Some(*f),
            None => field_named(fields@, name@, 0) is None,
        },
{
    let mut j: usize = 0;
    while j < fields.len()
        invariant
            j <= fields@.len(),
            field_named(fields@, name@, 0) == field_named(fields@, name@, j as int),
        decreases fields.len() - j,
    {
        if fields[j].name == *name {
            return Some(&fields[j]);
        }
        j = j + 1;
    }
    None
}

/// Encodes field values into the registers of a signal group of
/// `register_count` registers, zero where no field is written. `None` when a
/// value names no field, is not a number, has a type that is not converted,
/// or lies past the group.
pub fn encode_fields_to_registers(
    inputs: &[FieldInput],
    fields: &[FieldMapping],
    register_count: u16,
    byte_order: ByteOrder,
) -> (r: Option<Vec<u16>>)
    requires
        !(encoded_registers(inputs@, fields@, register_count, byte_order) is Panics),
    ensures
        match r {
            Some(regs) => encoded_registers(inputs@, fields@, register_count, byte_order)
                == EncodeOutcome::Done(regs@),
            None => encoded_registers(inputs@, fields@, register_count, byte_order) is Rejected,
        },
{
    let mut registers: Vec<u16> = Vec::new();
    let mut z: u16 = 0;
    while z < register_count
        invariant
            z <= register_count,
            registers@ == Seq::new(z as nat, |k: int| 0u16),
        decreases register_count - z,
    {
        registers.push(0);
        assert(registers@ =~= Seq::new((z + 1) as nat, |k: int| 0u16));
        z = z + 1;
    }
    let n = inputs.len();
    let mut i: usize = 0;
    assert(inputs@.take(0) =~= Seq::<FieldInput>::empty());
    while i < n
        invariant
            i <= n == inputs@.len(),
            registers@.len() == register_count,
            !(encoded_registers(inputs@, fields@, register_count, byte_order) is Panics),
            encoded_registers(inputs@.take(i as int), fields@, register_count, byte_order)
                == EncodeOutcome::Done(registers@),
        decreases n - i,
    {
        assert(inputs@.take(i + 1).drop_last() =~= inputs@.take(i as int));
        assert(inputs@.take(i + 1).last() == inputs@[i as int]);
        proof {
            lemma_prefix_outcome(inputs@, fields@, register_count, byte_order, i as int + 1);
        }
        let input = &inputs[i];
        let field = match find_field(fields, &input.name) {
            Some(f) => f,
            None => {
                proof {
                    lemma_rejection_persists(inputs@, fields@, register_count, byte_order, i + 1);
                }
                return None;
            },
        };
        let value = match &input.value {
            Some(v) => v,
            None => {
                proof {
                    lemma_rejection_persists(inputs@, fields@, register_count, byte_order, i + 1);
                }
                return None;
            },
        };
        let bytes = match DefaultDataTypeConverter::encode(value, field.data_type, byte_order) {
            Some(b) => b,
            None => {
                proof {
                    lemma_rejection_persists(inputs@, fields@, register_count, byte_order, i + 1);
                }
                return None;
            },
        };
        let required = field.data_type.required_registers();
        let end_offset = field.offset.saturating_add(required);
        if end_offset > register_count {
            proof {
                lemma_rejection_persists(inputs@, fields@, register_count, byte_order, i + 1);
            }
            return None;
        }
        let regs = bytes_to_registers(bytes.as_slice());
        let ghost before = registers@;
        let base = field.offset as usize;
        let mut k: usize = 0;
        while k < regs.len()
            invariant
                k <= regs@.len(),
                base + regs@.len() <= register_count == registers@.len(),
                before.len() == register_count,
                registers@ == Seq::new(
                    before.len(),
                    |q: int|
                        if base <= q < base + k {
                            regs@[q - base]
                        } else {
                            before[q]
                        },
                ),
            decreases regs.len() - k,
        {
            registers.set(base + k, regs[k]);
            assert(registers@ =~= Seq::new(
                before.len(),
                |q: int|
                    if base <= q < base + k + 1 {
                        regs@[q - base]
                    } else {
                        before[q]
                    },
            ));
            k = k + 1;
        }
        assert(registers@ =~= placed(before, base as int, regs@));
        i = i + 1;
    }
    assert(inputs@.take(n as int) =~= inputs@);
    Some(registers)
}

/// Whether encoding `inputs` into a group of `register_count` registers
/// would write past the register buffer: the first value that is not
/// written ends past the group only when its end is counted without
/// saturation.
pub fn encoding_overruns(
    inputs: &[FieldInput],
    fields: &[FieldMapping],
    register_count: u16,
    byte_order: ByteOrder,
) -> (b: bool)
    ensures
        b == encoded_registers(inputs@, fields@, register_count, byte_order) is Panics,
{
    let n = inputs.len();
    let mut i: usize = 0;
    assert(inputs@.take(0) =~= Seq::<FieldInput>::empty());
    while i < n
        invariant
            i <= n == inputs@.len(),
            encoded_registers(inputs@.take(i as int), fields@, register_count, byte_order) is Done,
        decreases n - i,
    {
        assert(inputs@.take(i + 1).drop_last() =~= inputs@.take(i as int));
        assert(inputs@.take(i + 1).last() == inputs@[i as int]);
        let input = &inputs[i];
        let field = match find_field(fields, &input.name) {
            Some(f) => f,
            None => {
                proof {
                    lemma_rejection_persists(inputs@, fields@, register_count, byte_order, i + 1);
                }
                return false;
            },
        };
        let value = match &input.value {
            Some(v) => v,
            None => {
                proof {
                    lemma_rejection_persists(inputs@, fields@, register_count, byte_order, i + 1);
                }
                return false;
            },
        };
        let bytes = match DefaultDataTypeConverter::encode(value, field.data_type, byte_order) {
            Some(b) => b,
            None => {
                proof {
                    lemma_rejection_persists(inputs@, fields@, register_count, byte_order, i + 1);
                }
                return false;
            },
        };
        let end_offset = field.offset.saturating_add(field.data_type.required_registers());
        if end_offset > register_count {
            proof {
                lemma_rejection_persists(inputs@, fields@, register_count, byte_order, i + 1);
            }
            return false;
        }
        let words = bytes_to_registers(bytes.as_slice());
        if field.offset as usize + words.len() > register_count as usize {
            proof {
                lemma_panic_persists(inputs@, fields@, register_count, byte_order, i + 1);
            }
            return true;
        }
        i = i + 1;
    }
    assert(inputs@.take(n as int) =~= inputs@);
    false
}

/// Once writing a prefix of the inputs panics, so does writing the whole.
proof fn lemma_panic_persists(
    inputs: Seq<FieldInput>,
    fields: Seq<FieldMapping>,
    count: u16,
    order: ByteOrder,
    k: int,
)
    requires
        0 <= k <= inputs.len(),
        encoded_registers(inputs.take(k), fields, count, order) is Panics,
    ensures
        encoded_registers(inputs, fields, count, order) is Panics,
    decreases inputs.len() - k,
{
    if k < inputs.len() {
        assert(inputs.take(k + 1).drop_last() =~= inputs.take(k));
        lemma_panic_persists(inputs, fields, count, order, k + 1);
    } else {
        assert(inputs.take(k) =~= inputs);
    }
}

/// Once a prefix of the inputs is rejected, so is the whole.
proof fn lemma_rejection_persists(
    inputs: Seq<FieldInput>,
    fields: Seq<FieldMapping>,
    count: u16,
    order: ByteOrder,
    k: int,
)
    requires
        0 <= k <= inputs.len(),
        encoded_registers(inputs.take(k), fields, count, order) is Rejected,
    ensures
        encoded_registers(inputs, fields, count, order) is Rejected,
    decreases inputs.len() - k,
{
    if k < inputs.len() {
        assert(inputs.take(k + 1).drop_last() =~= inputs.take(k));
        lemma_rejection_persists(inputs, fields, count, order, k + 1);
    } else {
        assert(inputs.take(k) =~= inputs);
    }
}

/// When writing all of `inputs` does not panic, neither does writing a prefix.
proof fn lemma_prefix_outcome(
    inputs: Seq<FieldInput>,
    fields: Seq<FieldMapping>,
    count: u16,
    order: ByteOrder,
    k: int,
)
    requires
        0 <= k <= inputs.len(),
        !(encoded_registers(inputs, fields, count, order) is Panics),
    ensures
        !(encoded_registers(inputs.take(k), fields, count, order) is Panics),
    decreases inputs.len() - k,
{
    if k < inputs.len() {
        lemma_prefix_outcome(inputs, fields, count, order, k + 1);
        assert(inputs.take(k + 1).drop_last() =~= inputs.take(k));
    } else {
        assert(inputs.take(k) =~= inputs);
    }
}

/// What is written is read back: a value encoded into a field of a group's
/// registers reads as that value from the registers, whatever else they
/// hold, as long as the field lies within them.
pub proof fn lemma_field_reads_back(regs: Seq<u16>, f: FieldMapping, v: NumericForms, order: ByteOrder)
    requires
        f.data_type != DataType::F64,
        f.offset + f.data_type.registers() <= regs.len(),
    ensures
        encoded(v, f.data_type, order) matches Some(b) && field_reading(
            placed(regs, f.offset as int, words_of(b)),
            f,
            order,
        ) == Some(value_of_forms(v, f.data_type)),
{
    lemma_encode_decode_roundtrip(v, f.data_type, order);
    let b = encoded(v, f.data_type, order).unwrap();
    let n = field_byte_count(f.data_type);
    assert(byte_len(f.data_type) == Some(n as nat));
    assert(b.len() == n);
    let w = words_of(b);
    let off = f.offset as int;
    let r = placed(regs, off, w);
    assert(w.len() == f.data_type.registers());
    let cov = covered_registers(r, off, n);
    assert(cov =~= w);
    if n == 1 {
        assert(register_bytes(w, n) =~= b);
    } else {
        assert forall|k: int| 0 <= k < 2 * w.len() implies #[trigger] register_bytes(w, n)[k] == b[k] by {
            let hi = b[2 * (k / 2)];
            let lo = b[2 * (k / 2) + 1];
            assert(w[k / 2] == (hi * 256 + lo) as u16);
            assert(((hi * 256 + lo) as u16) / 256 == hi);
            assert(((hi * 256 + lo) as u16) % 256 == lo);
        }
        assert(register_bytes(w, n) =~= b);
    }
    assert(extracted(r, off, n) =~= b);
}

/// A signal group write of one field's value, read back from the group's
/// registers, gives that value: the law behind writing a group and reading
/// it again.
pub proof fn lemma_group_write_reads_back(
    input: FieldInput,
    f: FieldMapping,
    fields: Seq<FieldMapping>,
    v: NumericForms,
    count: u16,
    order: ByteOrder,
)
    requires
        input.name@ == f.name@,
        input.value == Some(v),
        field_named(fields, f.name@, 0) == Some(f),
        f.data_type != DataType::F64,
        f.offset + f.data_type.registers() <= count,
    ensures
        encoded_registers(seq![input], fields, count, order) matches EncodeOutcome::Done(regs)
            && field_reading(regs, f, order) == Some(value_of_forms(v, f.data_type)),
{
    let inputs = seq![input];
    assert(inputs.drop_last() =~= Seq::<FieldInput>::empty());
    let zeros = Seq::new(count as nat, |k: int| 0u16);
    lemma_field_reads_back(zeros, f, v, order);
    lemma_encode_decode_roundtrip(v, f.data_type, order);
    let b = encoded(v, f.data_type, order).unwrap();
    assert(words_of(b).len() == f.data_type.registers());
    assert(write_step(zeros, input, fields, count, order) == EncodeOutcome::Done(
        placed(zeros, f.offset as int, words_of(b)),
    ));
    assert(encoded_registers(inputs.drop_last(), fields, count, order) == EncodeOutcome::Done(
        zeros,
    ));
    assert(inputs.last() == input);
    assert(encoded_registers(inputs, fields, count, order) == write_step(
        zeros,
        input,
        fields,
        count,
        order,
    ));
}

} // verus!
