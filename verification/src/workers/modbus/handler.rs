//! How a device control request becomes a Modbus operation, and what is
//! answered before the operation runs.

use crate::config::{Device, FieldMapping, SignalGroup};
use crate::messages::Operation;
use crate::text::{push_chars, push_str, string_from_chars, chars_of};
use crate::workers::modbus::client::{ModbusOp, OpView};
use crate::workers::modbus::operations::{parse_register_address, register_address, RegisterType};
use crate::workers::modbus::parsing::{
    encode_fields_to_registers, encoded_registers, encoding_overruns, EncodeOutcome, FieldInput,
};
use vstd::prelude::*;

verus! {

/// The parameters of a device control request, as far as the handler reads
/// them.
#[derive(Debug, Clone)]
pub struct ControlParams {
    /// `group_name`, when it is a string.
    pub group_name: Option<String>,
    /// The entries of `data`, when it is an object.
    pub data: Option<Vec<FieldInput>>,
    /// The entries of `values`, when it is an array: each as an unsigned
    /// integer when it is one.
    pub values: Option<Vec<Option<u64>>>,
}

/// The first signal group from index `j` on that is called `name`.
pub open spec fn group_named(groups: Seq<SignalGroup>, name: Seq<char>, j: int) -> Option<
    SignalGroup,
>
    decreases groups.len() - j,
{
    if 0 <= j < groups.len() {
        if groups[j].name@ == name {
            Some(groups[j])
        } else {
            group_named(groups, name, j + 1)
        }
    } else {
        None
    }
}

/// The first signal group called `name`.
pub fn resolve_signal_group<'a>(groups: &'a [SignalGroup], name: &String) -> (r: Option<
    &'a SignalGroup,
>)
    ensures
        match r {
            Some(g) => group_named(groups@, name@, 0) == Some(*g),
            None => group_named(groups@, name@, 0) is None,
        },
{
    let mut j: usize = 0;
    while j < groups.len()
        invariant
            j <= groups@.len(),
            group_named(groups@, name@, 0) == group_named(groups@, name@, j as int),
        decreases groups.len() - j,
    {
        if groups[j].name == *name {
            return Some(&groups[j]);
        }
        j = j + 1;
    }
    None
}

/// The first device from index `j` on whose id is `id`.
pub open spec fn device_named(devices: Seq<Device>, id: Seq<char>, j: int) -> Option<Device>
    decreases devices.len() - j,
{
    if 0 <= j < devices.len() {
        if devices[j].id@ == id {
            Some(devices[j])
        } else {
            device_named(devices, id, j + 1)
        }
    } else {
        None
    }
}

/// The configuration of the device `device_id` in a new configuration's
/// devices.
pub fn find_device_config<'a>(devices: &'a [Device], device_id: &String) -> (r: Option<&'a Device>)
    ensures
        match r {
            Some(d) => device_named(devices@, device_id@, 0) == Some(*d),
            None => device_named(devices@, device_id@, 0) is None,
        },
{
    let mut j: usize = 0;
    while j < devices.len()
        invariant
            j <= devices@.len(),
            device_named(devices@, device_id@, 0) == device_named(devices@, device_id@, j as int),
        decreases devices.len() - j,
    {
        if devices[j].id == *device_id {
            return Some(&devices[j]);
        }
        j = j + 1;
    }
    None
}

/// Refuses the read-only register types.
pub fn validate_writable(reg_type: RegisterType) -> (r: Result<(), &'static str>)
    ensures
        match r {
            Ok(_) => !reg_type.read_only(),
            Err(m) => reg_type.read_only() && m@ == "Cannot write to read-only register type"@,
        },
{
    match reg_type {
        RegisterType::Discrete | RegisterType::Input => {
            Err("Cannot write to read-only register type")
        },
        _ => Ok(()),
    }
}

/// The entries of `s` that are numbers, in order.
pub open spec fn known_values(s: Seq<Option<u64>>) -> Seq<u64>
    decreases s.len(),
{
    if s.len() == 0 {
        Seq::empty()
    } else {
        let rest = known_values(s.drop_last());
        match s.last() {
            Some(v) => rest.push(v),
            None => rest,
        }
    }
}

/// The group, register type and start address that a request names.
pub open spec fn target(device: Device, params: ControlParams) -> Option<
    (SignalGroup, RegisterType, u16),
> {
    match params.group_name {
        None => None,
        Some(n) => match group_named(device.signal_groups@, n@, 0) {
            None => None,
            Some(g) => match register_address(g.register_address@) {
                None => None,
                Some((t, a)) => Some((g, t, a)),
            },
        },
    }
}

/// The read of `count` registers of type `t` from `address`.
pub open spec fn read_op(t: RegisterType, address: u16, count: u16) -> OpView {
    match t {
        RegisterType::Coil => OpView::ReadCoil { address, count },
        RegisterType::Discrete => OpView::ReadDiscrete { address, count },
        RegisterType::Input => OpView::ReadInput { address, count },
        RegisterType::Holding => OpView::ReadHolding { address, count },
    }
}

/// The register words that a write gives for group `g`: its fields encoded
/// from `data` when there is `data`, otherwise the numbers of `values`;
/// `None` when there is neither or the encoding is rejected.
pub open spec fn written_words(device: Device, g: SignalGroup, params: ControlParams) -> Option<
    Seq<u16>,
> {
    match params.data {
        Some(d) => match encoded_registers(d@, g.fields@, g.register_count, device.byte_order) {
            EncodeOutcome::Done(regs) => Some(regs),
            _ => None,
        },
        None => match params.values {
            Some(vs) => Some(known_values(vs@).map_values(|v: u64| v as u16)),
            None => None,
        },
    }
}

/// The coil bits that a write gives for group `g`, each set when its word
/// or number is not zero.
pub open spec fn written_bits(device: Device, g: SignalGroup, params: ControlParams) -> Option<
    Seq<bool>,
> {
    match params.data {
        Some(d) => match encoded_registers(d@, g.fields@, g.register_count, device.byte_order) {
            EncodeOutcome::Done(regs) => Some(regs.map_values(|r: u16| r != 0)),
            _ => None,
        },
        None => match params.values {
            Some(vs) => Some(known_values(vs@).map_values(|v: u64| v != 0)),
            None => None,
        },
    }
}

/// A coil write: single when there is exactly one bit.
pub open spec fn coil_write(address: u16, bits: Seq<bool>) -> OpView {
    if bits.len() == 1 {
        OpView::WriteSingleCoil { address, value: bits[0] }
    } else {
        OpView::WriteMultipleCoils { address, values: bits }
    }
}

/// The Modbus operation that a request asks for on `device`.
pub open spec fn control_op(device: Device, operation: Operation, params: ControlParams) -> Option<
    OpView,
> {
    match operation {
        Operation::GetStatus => None,
        Operation::ReadSignalGroup => match target(device, params) {
            Some((g, t, a)) => Some(read_op(t, a, g.register_count)),
            None => None,
        },
        Operation::WriteSignalGroup => match target(device, params) {
            None => None,
            Some((g, t, a)) => match t {
                RegisterType::Coil => match written_bits(device, g, params) {
                    Some(bits) => Some(coil_write(a, bits)),
                    None => None,
                },
                RegisterType::Holding => match written_words(device, g, params) {
                    Some(ws) => Some(OpView::WriteMultiple { address: a, values: ws }),
                    None => None,
                },
                _ => None,
            },
        },
    }
}

/// Whether turning the request into an operation would write past the
/// group's register buffer (see [`EncodeOutcome::Panics`]).
pub open spec fn encoding_panics(device: Device, operation: Operation, params: ControlParams) -> bool {
    &&& operation is WriteSignalGroup
    &&& match target(device, params) {
        Some((g, t, a)) => {
            &&& (t is Coil || t is Holding)
            &&& match params.data {
                Some(d) => encoded_registers(
                    d@,
                    g.fields@,
                    g.register_count,
                    device.byte_order,
                ) is Panics,
                None => false,
            }
        },
        None => false,
    }
}

/// Whether turning the request into an operation would write past the
/// group's register buffer; such a request is refused before
/// [`operation_to_modbus_op`] is called.
pub fn encoding_would_overrun(device: &Device, operation: Operation, params: &ControlParams) -> (b:
    bool)
    ensures
        b == encoding_panics(*device, operation, *params),
{
    if operation != Operation::WriteSignalGroup {
        return false;
    }
    let name = match &params.group_name {
        Some(n) => n,
        None => return false,
    };
    let group = match resolve_signal_group(device.signal_groups.as_slice(), name) {
        Some(g) => g,
        None => return false,
    };
    let reg_type = match parse_register_address(group.register_address.as_str()) {
        Some((t, _)) => t,
        None => return false,
    };
    match reg_type {
        RegisterType::Coil | RegisterType::Holding => match &params.data {
            Some(d) => encoding_overruns(
                d.as_slice(),
                group.fields.as_slice(),
                group.register_count,
                device.byte_order,
            ),
            None => false,
        },
        _ => false,
    }
}

fn known_words(vs: &Vec<Option<u64>>) -> (r: Vec<u16>)
    ensures
        r@ == known_values(vs@).map_values(|v: u64| v as u16),
{
    let mut out: Vec<u16> = Vec::new();
    let mut i: usize = 0;
    while i < vs.len()
        invariant
            i <= vs@.len(),
            out@ == known_values(vs@.take(i as int)).map_values(|v: u64| v as u16),
        decreases vs.len() - i,
    {
        assert(vs@.take(i + 1).drop_last() =~= vs@.take(i as int));
        match vs[i] {
            Some(v) => {
                out.push(v as u16);
            },
            None => {},
        }
        assert(known_values(vs@.take(i + 1)).map_values(|v: u64| v as u16) =~= out@);
        i = i + 1;
    }
    assert(vs@.take(i as int) =~= vs@);
    out
}

fn known_bits(vs: &Vec<Option<u64>>) -> (r: Vec<bool>)
    ensures
        r@ == known_values(vs@).map_values(|v: u64| v != 0),
{
    let mut out: Vec<bool> = Vec::new();
    let mut i: usize = 0;
    while i < vs.len()
        invariant
            i <= vs@.len(),
            out@ == known_values(vs@.take(i as int)).map_values(|v: u64| v != 0),
        decreases vs.len() - i,
    {
        assert(vs@.take(i + 1).drop_last() =~= vs@.take(i as int));
        match vs[i] {
            Some(v) => {
                out.push(v != 0);
            },
            None => {},
        }
        assert(known_values(vs@.take(i + 1)).map_values(|v: u64| v != 0) =~= out@);
        i = i + 1;
    }
    assert(vs@.take(i as int) =~= vs@);
    out
}

fn nonzero_bits(regs: &Vec<u16>) -> (r: Vec<bool>)
    ensures
        r@ == regs@.map_values(|w: u16| w != 0),
{
    let mut out: Vec<bool> = Vec::new();
    let mut i: usize = 0;
    while i < regs.len()
        invariant
            i <= regs@.len(),
            out@ == regs@.take(i as int).map_values(|w: u16| w != 0),
        decreases regs.len() - i,
    {
        out.push(regs[i] != 0);
        assert(regs@.take(i + 1).map_values(|w: u16| w != 0) =~= out@);
        i = i + 1;
    }
    assert(regs@.take(i as int) =~= regs@);
    out
}

/// The Modbus operation that a device control request asks for: a read of
/// the whole signal group, or a write of it from field values (`data`) or
/// raw numbers (`values`). `None` for a status request, an unknown group or
/// address, a read-only register type, or values that cannot be encoded.
pub fn operation_to_modbus_op(device: &Device, operation: Operation, params: &ControlParams) -> (r:
    Option<ModbusOp>)
    requires
        !encoding_panics(*device, operation, *params),
    ensures
        match r {
            Some(op) => control_op(*device, operation, *params) == Some(op@),
            None => control_op(*device, operation, *params) is None,
        },
{
    if operation == Operation::GetStatus {
        return None;
    }
    let name = match &params.group_name {
        Some(n) => n,
        None => return None,
    };
    let group = match resolve_signal_group(device.signal_groups.as_slice(), name) {
        Some(g) => g,
        None => return None,
    };
    let (reg_type, address) = match parse_register_address(group.register_address.as_str()) {
        Some(p) => p,
        None => return None,
    };
    if operation == Operation::ReadSignalGroup {
        let count = group.register_count;
        return Some(
            match reg_type {
                RegisterType::Coil => ModbusOp::ReadCoil { address, count },
                RegisterType::Discrete => ModbusOp::ReadDiscrete { address, count },
                RegisterType::Input => ModbusOp::ReadInput { address, count },
                RegisterType::Holding => ModbusOp::ReadHolding { address, count },
            },
        );
    }
    if validate_writable(reg_type).is_err() {
        return None;
    }
    match reg_type {
        RegisterType::Coil => {
            let bits: Vec<bool> = match &params.data {
                Some(d) => {
                    match encode_fields_to_registers(
                        d.as_slice(),
                        group.fields.as_slice(),
                        group.register_count,
                        device.byte_order,
                    ) {
                        Some(regs) => nonzero_bits(&regs),
                        None => return None,
                    }
                },
                None => match &params.values {
                    Some(vs) => known_bits(vs),
                    None => return None,
                },
            };
            if bits.len() == 1 {
                Some(ModbusOp::WriteSingleCoil { address, value: bits[0] })
            } else {
                Some(ModbusOp::WriteMultipleCoils { address, values: bits })
            }
        },
        RegisterType::Holding => {
            let words: Vec<u16> = match &params.data {
                Some(d) => {
                    match encode_fields_to_registers(
                        d.as_slice(),
                        group.fields.as_slice(),
                        group.register_count,
                        device.byte_order,
                    ) {
                        Some(regs) => regs,
                        None => return None,
                    }
                },
                None => match &params.values {
                    Some(vs) => known_words(vs),
                    None => return None,
                },
            };
            Some(ModbusOp::WriteMultiple { address, values: words })
        },
        _ => None,
    }
}

/// The names of the `required` fields that `provided` lacks, in order.
pub open spec fn missing_names(provided: Seq<Seq<char>>, required: Seq<FieldMapping>) -> Seq<
    Seq<char>,
>
    decreases required.len(),
{
    if required.len() == 0 {
        Seq::empty()
    } else {
        let rest = missing_names(provided, required.drop_last());
        if provided.contains(required.last().name@) {
            rest
        } else {
            rest.push(required.last().name@)
        }
    }
}

/// A name is reported missing exactly when some required field has it and
/// no provided name equals it; where the provided names stand does not
/// matter.
pub proof fn lemma_missing_iff_absent(
    provided: Seq<Seq<char>>,
    required: Seq<FieldMapping>,
    x: Seq<char>,
)
    ensures
        missing_names(provided, required).contains(x) <==> (!provided.contains(x) && exists|i: int|
            0 <= i < required.len() && (#[trigger] required[i]).name@ == x),
    decreases required.len(),
{
    if required.len() > 0 {
        let init = required.drop_last();
        let last = required.last();
        lemma_missing_iff_absent(provided, init, x);
        let rest = missing_names(provided, init);
        if exists|i: int| 0 <= i < required.len() && (#[trigger] required[i]).name@ == x {
            let i = choose|i: int| 0 <= i < required.len() && (#[trigger] required[i]).name@ == x;
            if i < init.len() {
                assert(init[i] == required[i]);
            }
        }
        if exists|i: int| 0 <= i < init.len() && (#[trigger] init[i]).name@ == x {
            let i = choose|i: int| 0 <= i < init.len() && (#[trigger] init[i]).name@ == x;
            assert(required[i] == init[i]);
        }
        assert(required[required.len() - 1] == last);
        if !provided.contains(last.name@) {
            let pushed = rest.push(last.name@);
            assert(pushed[rest.len() as int] == last.name@);
            if pushed.contains(x) {
                let w = choose|w: int| 0 <= w < pushed.len() && pushed[w] == x;
                if w < rest.len() {
                    assert(rest[w] == x);
                }
            }
            if rest.contains(x) {
                let w = choose|w: int| 0 <= w < rest.len() && rest[w] == x;
                assert(pushed[w] == x);
            }
        }
    }
}

/// Every group field is given a value exactly when each required name
/// occurs somewhere among the provided names.
pub proof fn lemma_complete_iff_all_named(provided: Seq<Seq<char>>, required: Seq<FieldMapping>)
    ensures
        missing_names(provided, required).len() == 0 <==> forall|i: int|
            0 <= i < required.len() ==> provided.contains(#[trigger] required[i].name@),
{
    let m = missing_names(provided, required);
    if m.len() > 0 {
        lemma_missing_iff_absent(provided, required, m[0]);
        assert(m.contains(m[0]));
    }
    if exists|i: int| 0 <= i < required.len() && !provided.contains(#[trigger] required[i].name@) {
        let i = choose|i: int| 0 <= i < required.len() && !provided.contains(#[trigger] required[i].name@);
        lemma_missing_iff_absent(provided, required, required[i].name@);
    }
}

/// The verdict depends only on which names are provided, not on their
/// order or repetition: two lists that hold the same names leave the same
/// fields missing.
pub proof fn lemma_missing_depends_on_names_only(
    p: Seq<Seq<char>>,
    q: Seq<Seq<char>>,
    required: Seq<FieldMapping>,
)
    requires
        forall|x: Seq<char>| p.contains(x) <==> q.contains(x),
    ensures
        missing_names(p, required) == missing_names(q, required),
    decreases required.len(),
{
    if required.len() > 0 {
        lemma_missing_depends_on_names_only(p, q, required.drop_last());
        assert(p.contains(required.last().name@) == q.contains(required.last().name@));
    }
}

pub open spec fn names_of(v: Seq<String>) -> Seq<Seq<char>> {
    v.map_values(|s: String| s@)
}

pub open spec fn input_names(v: Seq<FieldInput>) -> Seq<Seq<char>> {
    v.map_values(|f: FieldInput| f.name@)
}

fn contains_name(names: &[String], name: &String) -> (b: bool)
    ensures
        b == names_of(names@).contains(name@),
{
    let mut i: usize = 0;
    while i < names.len()
        invariant
            i <= names@.len(),
            forall|j: int| 0 <= j < i ==> names@[j]@ != name@,
        decreases names.len() - i,
    {
        if names[i] == *name {
            assert(names_of(names@)[i as int] == name@);
            return true;
        }
        i = i + 1;
    }
    assert(!names_of(names@).contains(name@)) by {
        if names_of(names@).contains(name@) {
            let j = choose|j: int| 0 <= j < names_of(names@).len() && names_of(names@)[j] == name@;
            assert(names@[j]@ == name@);
        }
    }
    false
}

/// Checks that every field of a group is given a value: `Err` with the
/// names of those that are not, in the group's order.
pub fn validate_field_completeness(provided: &[String], required: &[FieldMapping]) -> (r: Result<
    (),
    Vec<String>,
>)
    ensures
        match r {
            Ok(_) => missing_names(names_of(provided@), required@).len() == 0,
            Err(m) => {
                &&& names_of(m@) == missing_names(names_of(provided@), required@)
                &&& m@.len() > 0
            },
        },
        r is Ok <==> forall|i: int|
            0 <= i < required@.len() ==> names_of(provided@).contains(#[trigger] required@[i].name@),
        match r {
            Ok(_) => true,
            Err(m) => forall|x: Seq<char>|
                #![trigger names_of(m@).contains(x)]
                names_of(m@).contains(x) <==> (!names_of(provided@).contains(x) && exists|i: int|
                    0 <= i < required@.len() && (#[trigger] required@[i]).name@ == x),
        },
{
    let mut missing: Vec<String> = Vec::new();
    let mut i: usize = 0;
    while i < required.len()
        invariant
            i <= required@.len(),
            names_of(missing@) == missing_names(names_of(provided@), required@.take(i as int)),
        decreases required.len() - i,
    {
        assert(required@.take(i + 1).drop_last() =~= required@.take(i as int));
        if !contains_name(provided, &required[i].name) {
            let name = required[i].name.clone();
            missing.push(name);
        }
        assert(names_of(missing@) =~= missing_names(names_of(provided@), required@.take(i + 1)));
        i = i + 1;
    }
    assert(required@.take(i as int) =~= required@);
    proof {
        lemma_complete_iff_all_named(names_of(provided@), required@);
        assert forall|x: Seq<char>| #![trigger names_of(missing@).contains(x)]
            names_of(missing@).contains(x) <==> (!names_of(provided@).contains(x) && exists|i: int|
                0 <= i < required@.len() && (#[trigger] required@[i]).name@ == x) by {
            lemma_missing_iff_absent(names_of(provided@), required@, x);
        }
    }
    if missing.len() == 0 {
        Ok(())
    } else {
        Err(missing)
    }
}

/// `parts` joined with `sep` between them.
pub open spec fn joined(parts: Seq<Seq<char>>, sep: Seq<char>) -> Seq<char>
    decreases parts.len(),
{
    if parts.len() == 0 {
        Seq::empty()
    } else if parts.len() == 1 {
        parts[0]
    } else {
        joined(parts.drop_last(), sep) + sep + parts.last()
    }
}

/// The answer to a write that leaves out fields of its group.
pub open spec fn incomplete_message(missing: Seq<Seq<char>>) -> Seq<char> {
    "Incomplete signal group: missing fields ["@ + joined(missing, ", "@)
        + "]. All fields must be provided."@
}

/// The answer to a write that leaves out the fields named `missing`.
pub fn incomplete_fields_message(missing: &[String]) -> (m: String)
    ensures
        m@ == incomplete_message(names_of(missing@)),
{
    let mut out: Vec<char> = Vec::new();
    push_str(&mut out, "Incomplete signal group: missing fields [");
    let ghost head = out@;
    let mut i: usize = 0;
    while i < missing.len()
        invariant
            i <= missing@.len(),
            out@ == head + joined(names_of(missing@.take(i as int)), ", "@),
        decreases missing.len() - i,
    {
        assert(names_of(missing@.take(i + 1)).drop_last() =~= names_of(missing@.take(i as int)));
        if i > 0 {
            push_str(&mut out, ", ");
        }
        let part = chars_of(missing[i].as_str());
        push_chars(&mut out, &part);
        proof {
            if i == 0 {
                assert(names_of(missing@.take(1)) =~= seq![missing@[0]@]);
            }
        }
        i = i + 1;
    }
    assert(missing@.take(i as int) =~= missing@);
    push_str(&mut out, "]. All fields must be provided.");
    proof {
        assert(out@ =~= incomplete_message(names_of(missing@)));
    }
    string_from_chars(&out)
}

/// Whether a request takes an operation slot before it runs: a read or a
/// write on a connected device.
pub fn needs_slot(connected: bool, operation: Operation) -> (b: bool)
    ensures
        b == (connected && !(operation is GetStatus)),
{
    connected && operation != Operation::GetStatus
}

/// What the handler does with a device control request.
#[derive(Debug)]
pub enum ControlStep {
    /// Answer with a failure carrying `error`; give back the operation slot
    /// that was taken when `release`.
    Refuse { error: String, release: bool },
    /// Answer with the status of the device.
    ReportStatus,
    /// Run `op` on the connection pool and answer with its result for the
    /// group `group_name`; with no operation the answer is
    /// `Invalid signal group: <group_name>`.
    Execute { op: Option<ModbusOp>, group_name: String },
}

/// The group name a request gives, empty when it gives none.
pub open spec fn requested_group(params: ControlParams) -> Seq<char> {
    match params.group_name {
        Some(n) => n@,
        None => Seq::empty(),
    }
}

/// The fields that a write leaves out of its group, when it gives field
/// values for a known group.
pub open spec fn left_out(device: Device, operation: Operation, params: ControlParams) -> Seq<
    Seq<char>,
> {
    if operation is WriteSignalGroup {
        match params.data {
            Some(d) => match group_named(device.signal_groups@, requested_group(params), 0) {
                Some(g) => missing_names(input_names(d@), g.fields@),
                None => Seq::empty(),
            },
            None => Seq::empty(),
        }
    } else {
        Seq::empty()
    }
}

fn input_name_list(inputs: &Vec<FieldInput>) -> (r: Vec<String>)
    ensures
        names_of(r@) == input_names(inputs@),
{
    let mut out: Vec<String> = Vec::new();
    let mut i: usize = 0;
    while i < inputs.len()
        invariant
            i <= inputs@.len(),
            out@.len() == i,
            names_of(out@) == input_names(inputs@.take(i as int)),
        decreases inputs.len() - i,
    {
        let ghost before = out@;
        let name = inputs[i].name.clone();
        assert(name@ == inputs@[i as int].name@);
        out.push(name);
        assert forall|k: int| 0 <= k <= i implies names_of(out@)[k] == input_names(
            inputs@.take(i + 1),
        )[k] by {
            if k < i {
                assert(names_of(before)[k] == input_names(inputs@.take(i as int))[k]);
            }
        }
        assert(names_of(out@) =~= input_names(inputs@.take(i + 1)));
        i = i + 1;
    }
    assert(inputs@.take(i as int) =~= inputs@);
    out
}

/// Decides what to do with a device control request. `connected` is whether
/// the device could be reached; `acquired` whether an operation slot was
/// taken (one is taken exactly when [`needs_slot`] says so); `pool_available`
/// whether a connection pool exists. A device that is not connected is
/// refused, a status request is answered, a read or write without a slot or
/// without a pool is refused, a write that leaves out fields of its group
/// is refused, and anything else runs. Only a read or write with a slot and
/// a pool builds its operation, and building a write whose encoding would
/// overrun its group's buffer panics ([`encoding_would_overrun`] tells).
pub fn plan_device_control(
    device: &Device,
    connected: bool,
    operation: Operation,
    params: &ControlParams,
    acquired: bool,
    pool_available: bool,
) -> (s: ControlStep)
    requires
        connected && !(operation is GetStatus) && acquired && pool_available ==> !encoding_panics(
            *device,
            operation,
            *params,
        ),
    ensures
        !connected ==> (s matches ControlStep::Refuse { error, release } && error@
            == "Device not connected"@ && !release),
        connected && operation is GetStatus ==> s is ReportStatus,
        connected && !(operation is GetStatus) && !acquired ==> (s matches ControlStep::Refuse {
            error,
            release,
        } && error@ == "Too many concurrent operations"@ && !release),
        connected && !(operation is GetStatus) && acquired && !pool_available ==> (s matches ControlStep::Refuse {
            error,
            release,
        } && error@ == "Connection pool not available"@ && release),
        connected && !(operation is GetStatus) && acquired && pool_available && left_out(
            *device,
            operation,
            *params,
        ).len() > 0 ==> (s matches ControlStep::Refuse { error, release } && error@
            == incomplete_message(left_out(*device, operation, *params)) && release),
        connected && !(operation is GetStatus) && acquired && pool_available && left_out(
            *device,
            operation,
            *params,
        ).len() == 0 ==> match s {
            ControlStep::Execute { op, group_name } => {
                &&& group_name@ == requested_group(*params)
                &&& match op {
                    Some(o) => control_op(*device, operation, *params) == Some(o@),
                    None => control_op(*device, operation, *params) is None,
                }
            },
            _ => false,
        },
{
    if !connected {
        return ControlStep::Refuse { error: "Device not connected".to_owned(), release: false };
    }
    if operation == Operation::GetStatus {
        return ControlStep::ReportStatus;
    }
    if !acquired {
        return ControlStep::Refuse {
            error: "Too many concurrent operations".to_owned(),
            release: false,
        };
    }
    if !pool_available {
        return ControlStep::Refuse {
            error: "Connection pool not available".to_owned(),
            release: true,
        };
    }
    let op = operation_to_modbus_op(device, operation, params);
    let group_name: String = match &params.group_name {
        Some(n) => n.clone(),
        None => String::new(),
    };
    if operation == Operation::WriteSignalGroup {
        if let Some(data) = &params.data {
            if let Some(group) = resolve_signal_group(device.signal_groups.as_slice(), &group_name) {
                let provided = input_name_list(data);
                if let Err(missing) = validate_field_completeness(
                    provided.as_slice(),
                    group.fields.as_slice(),
                ) {
                    return ControlStep::Refuse {
                        error: incomplete_fields_message(missing.as_slice()),
                        release: true,
                    };
                }
            }
        }
    }
    ControlStep::Execute { op, group_name }
}

} // verus!
