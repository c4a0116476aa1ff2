//! A stand-in Modbus TCP server for trying the middleware without a device:
//! registers and coils live in memory, and each request frame body is
//! answered the way a device would answer it.

use std::collections::HashMap;
use vstd::prelude::*;

verus! {

broadcast use vstd::std_specs::hash::group_hash_axioms;

pub const READ_COILS: u8 = 0x01;

pub const READ_DISCRETE_INPUTS: u8 = 0x02;

pub const READ_HOLDING_REGISTERS: u8 = 0x03;

pub const READ_INPUT_REGISTERS: u8 = 0x04;

pub const WRITE_SINGLE_COIL: u8 = 0x05;

pub const WRITE_SINGLE_REGISTER: u8 = 0x06;

pub const WRITE_MULTIPLE_REGISTERS: u8 = 0x10;

pub const ILLEGAL_FUNCTION: u8 = 0x01;

pub const ILLEGAL_DATA_ADDRESS: u8 = 0x02;

pub const ILLEGAL_DATA_VALUE: u8 = 0x03;

pub const SERVER_DEVICE_FAILURE: u8 = 0x04;

/// Most registers one read may ask for.
pub const MAX_READ_REGISTERS: u16 = 125;

/// The registers and coils of the stand-in server, with a count of the
/// requests it served.
#[derive(Default)]
pub struct MockModbusState {
    pub holding_registers: HashMap<u16, u16>,
    pub input_registers: HashMap<u16, u16>,
    pub coils: HashMap<u16, bool>,
    pub discrete_inputs: HashMap<u16, bool>,
    pub request_count: usize,
    pub fail_next: bool,
}

/// The registers and coils of the server as maps.
pub struct MockView {
    pub holding: Map<u16, u16>,
    pub input: Map<u16, u16>,
    pub coils: Map<u16, bool>,
    pub discrete: Map<u16, bool>,
}

impl MockModbusState {
    pub open spec fn view_maps(&self) -> MockView {
        MockView {
            holding: self.holding_registers@,
            input: self.input_registers@,
            coils: self.coils@,
            discrete: self.discrete_inputs@,
        }
    }

    /// An empty server: every register and coil reads as zero.
    pub fn new() -> (s: Self)
        ensures
            s.holding_registers@ == Map::<u16, u16>::empty(),
            s.input_registers@ == Map::<u16, u16>::empty(),
            s.coils@ == Map::<u16, bool>::empty(),
            s.discrete_inputs@ == Map::<u16, bool>::empty(),
            s.request_count == 0,
            !s.fail_next,
    {
        MockModbusState {
            holding_registers: HashMap::new(),
            input_registers: HashMap::new(),
            coils: HashMap::new(),
            discrete_inputs: HashMap::new(),
            request_count: 0,
            fail_next: false,
        }
    }

    /// Sets one holding register.
    pub fn set_holding_register(&mut self, address: u16, value: u16)
        ensures
            final(self).holding_registers@ == old(self).holding_registers@.insert(address, value),
            final(self).input_registers@ == old(self).input_registers@,
            final(self).coils@ == old(self).coils@,
            final(self).discrete_inputs@ == old(self).discrete_inputs@,
            final(self).request_count == old(self).request_count,
            final(self).fail_next == old(self).fail_next,
    {
        self.holding_registers.insert(address, value);
    }

    /// Sets consecutive holding registers from `start` on.
    pub fn set_holding_registers(&mut self, start: u16, values: &[u16])
        requires
            start + values@.len() <= 65536,
        ensures
            final(self).holding_registers@ == old(self).holding_registers@.union_prefer_right(
                Map::new(
                    |a: u16| start <= a < start + values@.len(),
                    |a: u16| values@[a - start],
                ),
            ),
            final(self).input_registers@ == old(self).input_registers@,
            final(self).coils@ == old(self).coils@,
            final(self).discrete_inputs@ == old(self).discrete_inputs@,
            final(self).request_count == old(self).request_count,
            final(self).fail_next == old(self).fail_next,
    {
        let mut i: usize = 0;
        while i < values.len()
            invariant
                i <= values@.len(),
                start + values@.len() <= 65536,
                self.holding_registers@ == old(self).holding_registers@.union_prefer_right(
                    Map::new(|a: u16| start <= a < start + i, |a: u16| values@[a - start]),
                ),
                self.input_registers@ == old(self).input_registers@,
                self.coils@ == old(self).coils@,
                self.discrete_inputs@ == old(self).discrete_inputs@,
                self.request_count == old(self).request_count,
                self.fail_next == old(self).fail_next,
            decreases values.len() - i,
        {
            let address = start + i as u16;
            self.holding_registers.insert(address, values[i]);
            assert(self.holding_registers@ =~= old(self).holding_registers@.union_prefer_right(
                Map::new(|a: u16| start <= a < start + i + 1, |a: u16| values@[a - start]),
            ));
            i = i + 1;
        }
    }

    /// Loads the demonstration values: a motor at 1500 RPM running forward
    /// with no error or fault (h100..h104), and two temperature sensors,
    /// humidity 65 %, sensor status and alarm code (h200..h206).
    pub fn load_demo_data(&mut self)
        ensures
            final(self).holding_registers@ == old(self).holding_registers@.insert(100, 1500).insert(
                101,
                1,
            ).insert(102, 1).insert(103, 0).insert(104, 0).insert(200, 0x41CC).insert(
                201,
                0x0000,
            ).insert(202, 0x41F1).insert(203, 0x3333).insert(204, 65).insert(205, 1).insert(
                206,
                0,
            ),
            final(self).input_registers@ == old(self).input_registers@,
            final(self).coils@ == old(self).coils@,
            final(self).discrete_inputs@ == old(self).discrete_inputs@,
            final(self).request_count == old(self).request_count,
            final(self).fail_next == old(self).fail_next,
    {
        self.set_holding_register(100, 1500);
        self.set_holding_register(101, 1);
        self.set_holding_register(102, 1);
        self.set_holding_register(103, 0);
        self.set_holding_register(104, 0);
        self.set_holding_register(200, 0x41CC);
        self.set_holding_register(201, 0x0000);
        self.set_holding_register(202, 0x41F1);
        self.set_holding_register(203, 0x3333);
        self.set_holding_register(204, 65);
        self.set_holding_register(205, 1);
        self.set_holding_register(206, 0);
    }
}

/// The big-endian word of two bytes.
pub open spec fn word(hi: u8, lo: u8) -> u16 {
    (hi * 256 + lo) as u16
}

/// The big-endian word at index `i` of `d`.
pub open spec fn word_at(d: Seq<u8>, i: int) -> u16 {
    word(d[i], d[i + 1])
}

/// The big-endian bytes of a word.
pub open spec fn be(v: u16) -> Seq<u8> {
    seq![(v / 256) as u8, (v % 256) as u8]
}

/// A response frame: transaction id, protocol 0, length, unit id, then the
/// protocol data unit.
pub open spec fn frame(tid: u16, unit: u8, pdu: Seq<u8>) -> Seq<u8> {
    be(tid) + be(0) + be((pdu.len() + 1) as u16) + seq![unit] + pdu
}

/// An exception response to function `fc`.
pub open spec fn exception_frame(tid: u16, unit: u8, fc: u8, code: u8) -> Seq<u8> {
    frame(tid, unit, seq![fc | 0x80, code])
}

/// A register's value; zero when it was never set.
pub open spec fn reg(m: Map<u16, u16>, a: int) -> u16 {
    if m.contains_key(a as u16) {
        m[a as u16]
    } else {
        0
    }
}

/// A coil's value; off when it was never set.
pub open spec fn bit(m: Map<u16, bool>, a: int) -> bool {
    m.contains_key(a as u16) && m[a as u16]
}

/// The big-endian bytes of `count` registers from `start` on.
pub open spec fn register_bytes(m: Map<u16, u16>, start: u16, count: int) -> Seq<u8> {
    Seq::new(
        (2 * count) as nat,
        |k: int|
            if k % 2 == 0 {
                (reg(m, start + k / 2) / 256) as u8
            } else {
                (reg(m, start + k / 2) % 256) as u8
            },
    )
}

/// Byte `j` of a coil read of `count` coils from `start` on, with only its
/// `b` lowest bits filled in: bit `i` is coil `start + 8j + i`.
pub open spec fn packed(m: Map<u16, bool>, start: u16, count: int, j: int, b: int) -> u8
    decreases b,
{
    if b <= 0 {
        0
    } else {
        let prev = packed(m, start, count, j, b - 1);
        let idx = j * 8 + (b - 1);
        if idx < count && bit(m, start + idx) {
            prev | (1u8 << ((b - 1) as u8))
        } else {
            prev
        }
    }
}

/// The bytes of a read of `count` coils from `start` on.
pub open spec fn coil_bytes(m: Map<u16, bool>, start: u16, count: int) -> Seq<u8> {
    Seq::new(((count + 7) / 8) as nat, |j: int| packed(m, start, count, j, 8))
}

/// The answer to a register read (function 3 or 4) with request body `b`.
pub open spec fn register_read_reply(tid: u16, unit: u8, fc: u8, b: Seq<u8>, m: Map<u16, u16>) -> Seq<
    u8,
> {
    if b.len() < 4 {
        exception_frame(tid, unit, fc, ILLEGAL_DATA_VALUE)
    } else if word_at(b, 2) > MAX_READ_REGISTERS {
        exception_frame(tid, unit, fc, ILLEGAL_DATA_VALUE)
    } else {
        frame(
            tid,
            unit,
            seq![fc, (word_at(b, 2) * 2) as u8] + register_bytes(m, word_at(b, 0), word_at(b, 2) as int),
        )
    }
}

/// The answer to a coil or discrete input read (function 1 or 2).
pub open spec fn bit_read_reply(tid: u16, unit: u8, fc: u8, b: Seq<u8>, m: Map<u16, bool>) -> Seq<u8> {
    if b.len() < 4 {
        exception_frame(tid, unit, fc, ILLEGAL_DATA_VALUE)
    } else {
        frame(
            tid,
            unit,
            seq![fc, ((word_at(b, 2) + 7) / 8) as u8] + coil_bytes(m, word_at(b, 0), word_at(b, 2) as int),
        )
    }
}

/// The echo of a write request: its function code and first four bytes.
pub open spec fn echo_reply(tid: u16, unit: u8, fc: u8, b: Seq<u8>) -> Seq<u8> {
    frame(tid, unit, seq![fc, b[0], b[1], b[2], b[3]])
}

/// Whether a multiple-register write body is well formed: a byte count that
/// is there and matches twice the register count.
pub open spec fn multiple_write_ok(b: Seq<u8>) -> bool {
    b.len() >= 5 && b.len() >= 5 + b[4] && (word_at(b, 2) as int) * 2 == b[4] as int
}

/// The registers written by a well-formed multiple-register write.
pub open spec fn written_registers(b: Seq<u8>) -> Map<u16, u16> {
    Map::new(
        |a: u16| word_at(b, 0) <= a < word_at(b, 0) + word_at(b, 2),
        |a: u16| word_at(b, 5 + 2 * (a - word_at(b, 0))),
    )
}

/// Whether serving `data` would count an address past 65535, which the
/// server does not survive.
pub open spec fn request_overflows(data: Seq<u8>) -> bool {
    data.len() > 0 && {
        let fc = data[0];
        let b = data.skip(1);
        if fc == READ_HOLDING_REGISTERS || fc == READ_INPUT_REGISTERS {
            b.len() >= 4 && word_at(b, 2) <= MAX_READ_REGISTERS && word_at(b, 0) + word_at(b, 2)
                > 65536
        } else if fc == READ_COILS || fc == READ_DISCRETE_INPUTS {
            b.len() >= 4 && word_at(b, 0) + word_at(b, 2) > 65536
        } else if fc == WRITE_MULTIPLE_REGISTERS {
            multiple_write_ok(b) && word_at(b, 0) + word_at(b, 2) > 65536
        } else {
            false
        }
    }
}

/// The answer to the request `data` (function code, then body), `None`
/// for an empty request.
pub open spec fn reply(tid: u16, unit: u8, data: Seq<u8>, v: MockView) -> Option<Seq<u8>> {
    if data.len() == 0 {
        None
    } else {
        let fc = data[0];
        let b = data.skip(1);
        Some(
            if fc == READ_HOLDING_REGISTERS {
                register_read_reply(tid, unit, fc, b, v.holding)
            } else if fc == READ_INPUT_REGISTERS {
                register_read_reply(tid, unit, fc, b, v.input)
            } else if fc == WRITE_SINGLE_REGISTER || fc == WRITE_SINGLE_COIL {
                if b.len() < 4 {
                    exception_frame(tid, unit, fc, ILLEGAL_DATA_VALUE)
                } else {
                    echo_reply(tid, unit, fc, b)
                }
            } else if fc == WRITE_MULTIPLE_REGISTERS {
                if multiple_write_ok(b) {
                    echo_reply(tid, unit, fc, b)
                } else {
                    exception_frame(tid, unit, fc, ILLEGAL_DATA_VALUE)
                }
            } else if fc == READ_COILS {
                bit_read_reply(tid, unit, fc, b, v.coils)
            } else if fc == READ_DISCRETE_INPUTS {
                bit_read_reply(tid, unit, fc, b, v.discrete)
            } else {
                exception_frame(tid, unit, fc, ILLEGAL_FUNCTION)
            },
        )
    }
}

/// The registers and coils after the request `data`.
pub open spec fn after(data: Seq<u8>, v: MockView) -> MockView {
    if data.len() == 0 {
        v
    } else {
        let fc = data[0];
        let b = data.skip(1);
        if fc == WRITE_SINGLE_REGISTER && b.len() >= 4 {
            MockView { holding: v.holding.insert(word_at(b, 0), word_at(b, 2)), ..v }
        } else if fc == WRITE_SINGLE_COIL && b.len() >= 4 {
            MockView { coils: v.coils.insert(word_at(b, 0), word_at(b, 2) == 0xFF00), ..v }
        } else if fc == WRITE_MULTIPLE_REGISTERS && multiple_write_ok(b) {
            MockView { holding: v.holding.union_prefer_right(written_registers(b)), ..v }
        } else {
            v
        }
    }
}

fn be_word(hi: u8, lo: u8) -> (w: u16)
    ensures
        w == word(hi, lo),
{
    (hi as u16) * 256 + (lo as u16)
}

fn push_word(out: &mut Vec<u8>, v: u16)
    ensures
        final(out)@ == old(out)@ + be(v),
{
    out.push((v / 256) as u8);
    out.push((v % 256) as u8);
    assert(out@ =~= old(out)@ + be(v));
}

/// A response frame around `pdu`.
pub fn build_response(transaction_id: u16, unit_id: u8, pdu: &[u8]) -> (r: Vec<u8>)
    requires
        pdu@.len() < 65535,
    ensures
        r@ == frame(transaction_id, unit_id, pdu@),
{
    let length = (pdu.len() + 1) as u16;
    let mut response: Vec<u8> = Vec::new();
    push_word(&mut response, transaction_id);
    push_word(&mut response, 0);
    push_word(&mut response, length);
    response.push(unit_id);
    let ghost head = response@;
    let mut i: usize = 0;
    while i < pdu.len()
        invariant
            i <= pdu@.len(),
            response@ == head + pdu@.take(i as int),
        decreases pdu.len() - i,
    {
        response.push(pdu[i]);
        assert(response@ =~= head + pdu@.take(i + 1));
        i = i + 1;
    }
    assert(pdu@.take(i as int) =~= pdu@);
    assert(response@ =~= frame(transaction_id, unit_id, pdu@));
    response
}

/// An exception response to function `function_code`.
pub fn build_exception_response(
    transaction_id: u16,
    unit_id: u8,
    function_code: u8,
    exception_code: u8,
) -> (r: Option<Vec<u8>>)
    ensures
        r matches Some(v) && v@ == exception_frame(
            transaction_id,
            unit_id,
            function_code,
            exception_code,
        ),
{
    let pdu = vec![function_code | 0x80, exception_code];
    assert(pdu@ =~= seq![function_code | 0x80, exception_code]);
    Some(build_response(transaction_id, unit_id, pdu.as_slice()))
}

fn echo(transaction_id: u16, unit_id: u8, fc: u8, body: &[u8]) -> (r: Vec<u8>)
    requires
        body@.len() >= 4,
    ensures
        r@ == echo_reply(transaction_id, unit_id, fc, body@),
{
    let pdu = vec![fc, body[0], body[1], body[2], body[3]];
    assert(pdu@ =~= seq![fc, body@[0], body@[1], body@[2], body@[3]]);
    build_response(transaction_id, unit_id, pdu.as_slice())
}

fn read_registers(
    transaction_id: u16,
    unit_id: u8,
    fc: u8,
    body: &[u8],
    registers: &HashMap<u16, u16>,
) -> (r: Option<Vec<u8>>)
    requires
        !(body@.len() >= 4 && word_at(body@, 2) <= MAX_READ_REGISTERS && word_at(body@, 0)
            + word_at(body@, 2) > 65536),
    ensures
        r matches Some(v) && v@ == register_read_reply(
            transaction_id,
            unit_id,
            fc,
            body@,
            registers@,
        ),
{
    if body.len() < 4 {
        return build_exception_response(transaction_id, unit_id, fc, ILLEGAL_DATA_VALUE);
    }
    let start_addr = be_word(body[0], body[1]);
    let count = be_word(body[2], body[3]);
    if count > MAX_READ_REGISTERS {
        return build_exception_response(transaction_id, unit_id, fc, ILLEGAL_DATA_VALUE);
    }
    let mut pdu: Vec<u8> = vec![fc, (count * 2) as u8];
    let ghost head = pdu@;
    let ghost m = registers@;
    let mut i: u16 = 0;
    while i < count
        invariant
            i <= count <= MAX_READ_REGISTERS,
            start_addr + count <= 65536,
            m == registers@,
            start_addr == word_at(body@, 0),
            pdu@ == head + register_bytes(m, start_addr, i as int),
        decreases count - i,
    {
        let addr = start_addr + i;
        let value: u16 = match registers.get(&addr) {
            Some(v) => *v,
            None => 0,
        };
        assert(value == reg(m, start_addr + i));
        push_word(&mut pdu, value);
        assert(register_bytes(m, start_addr, i + 1) =~= register_bytes(m, start_addr, i as int)
            + be(value));
        i = i + 1;
    }
    assert(pdu@ =~= seq![fc, (count * 2) as u8] + register_bytes(m, start_addr, count as int));
    Some(build_response(transaction_id, unit_id, pdu.as_slice()))
}

fn read_bits(
    transaction_id: u16,
    unit_id: u8,
    fc: u8,
    body: &[u8],
    bits: &HashMap<u16, bool>,
) -> (r: Option<Vec<u8>>)
    requires
        !(body@.len() >= 4 && word_at(body@, 0) + word_at(body@, 2) > 65536),
    ensures
        r matches Some(v) && v@ == bit_read_reply(transaction_id, unit_id, fc, body@, bits@),
{
    if body.len() < 4 {
        return build_exception_response(transaction_id, unit_id, fc, ILLEGAL_DATA_VALUE);
    }
    let start_addr = be_word(body[0], body[1]);
    let count = be_word(body[2], body[3]) as usize;
    let byte_count = (count + 7) / 8;
    let mut pdu: Vec<u8> = vec![fc, byte_count as u8];
    let ghost head = pdu@;
    let ghost m = bits@;
    let mut byte_idx: usize = 0;
    while byte_idx < byte_count
        invariant
            byte_idx <= byte_count == (count + 7) / 8,
            count <= 65535,
            start_addr + count <= 65536,
            m == bits@,
            start_addr == word_at(body@, 0),
            pdu@ == head + coil_bytes(m, start_addr, count as int).take(byte_idx as int),
        decreases byte_count - byte_idx,
    {
        let mut byte_val: u8 = 0;
        let mut bit_idx: usize = 0;
        while bit_idx < 8
            invariant
                bit_idx <= 8,
                byte_idx < byte_count == (count + 7) / 8,
                count <= 65535,
                start_addr + count <= 65536,
                m == bits@,
                byte_val == packed(m, start_addr, count as int, byte_idx as int, bit_idx as int),
            decreases 8 - bit_idx,
        {
            let coil_idx = byte_idx * 8 + bit_idx;
            if coil_idx < count {
                let addr = start_addr + coil_idx as u16;
                let on = match bits.get(&addr) {
                    Some(b) => *b,
                    None => false,
                };
                assert(on == bit(m, start_addr + coil_idx));
                if on {
                    byte_val = byte_val | (1u8 << (bit_idx as u8));
                }
            }
            bit_idx = bit_idx + 1;
        }
        pdu.push(byte_val);
        assert(pdu@ =~= head + coil_bytes(m, start_addr, count as int).take(byte_idx + 1));
        byte_idx = byte_idx + 1;
    }
    assert(coil_bytes(m, start_addr, count as int).take(byte_count as int) =~= coil_bytes(
        m,
        start_addr,
        count as int,
    ));
    Some(build_response(transaction_id, unit_id, pdu.as_slice()))
}

fn write_multiple_registers(
    transaction_id: u16,
    unit_id: u8,
    body: &[u8],
    registers: &mut HashMap<u16, u16>,
) -> (r: Option<Vec<u8>>)
    requires
        !(multiple_write_ok(body@) && word_at(body@, 0) + word_at(body@, 2) > 65536),
    ensures
        multiple_write_ok(body@) ==> {
            &&& r matches Some(v) && v@ == echo_reply(
                transaction_id,
                unit_id,
                WRITE_MULTIPLE_REGISTERS,
                body@,
            )
            &&& final(registers)@ == old(registers)@.union_prefer_right(written_registers(body@))
        },
        !multiple_write_ok(body@) ==> {
            &&& r matches Some(v) && v@ == exception_frame(
                transaction_id,
                unit_id,
                WRITE_MULTIPLE_REGISTERS,
                ILLEGAL_DATA_VALUE,
            )
            &&& final(registers)@ == old(registers)@
        },
{
    if body.len() < 5 {
        return build_exception_response(
            transaction_id,
            unit_id,
            WRITE_MULTIPLE_REGISTERS,
            ILLEGAL_DATA_VALUE,
        );
    }
    let start_addr = be_word(body[0], body[1]);
    let count = be_word(body[2], body[3]) as usize;
    let byte_count = body[4] as usize;
    if body.len() < 5 + byte_count || count * 2 != byte_count {
        return build_exception_response(
            transaction_id,
            unit_id,
            WRITE_MULTIPLE_REGISTERS,
            ILLEGAL_DATA_VALUE,
        );
    }
    let ghost b = body@;
    let mut i: usize = 0;
    while i < count
        invariant
            i <= count,
            count * 2 == byte_count,
            5 + byte_count <= b.len(),
            b == body@,
            start_addr == word_at(b, 0),
            count == word_at(b, 2),
            start_addr + count <= 65536,
            registers@ == old(registers)@.union_prefer_right(
                Map::new(
                    |a: u16| start_addr <= a < start_addr + i,
                    |a: u16| word_at(b, 5 + 2 * (a - start_addr)),
                ),
            ),
        decreases count - i,
    {
        let addr = start_addr + i as u16;
        let offset = 5 + i * 2;
        let value = be_word(body[offset], body[offset + 1]);
        registers.insert(addr, value);
        assert(registers@ =~= old(registers)@.union_prefer_right(
            Map::new(
                |a: u16| start_addr <= a < start_addr + i + 1,
                |a: u16| word_at(b, 5 + 2 * (a - start_addr)),
            ),
        ));
        i = i + 1;
    }
    assert(registers@ =~= old(registers)@.union_prefer_right(written_registers(b)));
    Some(echo(transaction_id, unit_id, WRITE_MULTIPLE_REGISTERS, body))
}

/// Whether serving `data` would count an address past 65535; such a
/// request is refused before [`serve_request`] is called.
pub fn request_would_overflow(data: &[u8]) -> (b: bool)
    ensures
        b == request_overflows(data@),
{
    if data.len() < 5 {
        return false;
    }
    let fc = data[0];
    let start = be_word(data[1], data[2]) as u32;
    let count = be_word(data[3], data[4]) as u32;
    assert(data@.skip(1)[0] == data@[1] && data@.skip(1)[1] == data@[2]);
    assert(data@.skip(1)[2] == data@[3] && data@.skip(1)[3] == data@[4]);
    if fc == READ_HOLDING_REGISTERS || fc == READ_INPUT_REGISTERS {
        count <= MAX_READ_REGISTERS as u32 && start + count > 65536
    } else if fc == READ_COILS || fc == READ_DISCRETE_INPUTS {
        start + count > 65536
    } else if fc == WRITE_MULTIPLE_REGISTERS {
        if data.len() < 6 {
            return false;
        }
        let byte_count = data[5];
        assert(data@.skip(1)[4] == data@[5]);
        data.len() - 1 >= 5 + byte_count as usize && count * 2 == byte_count as u32 && start + count
            > 65536
    } else {
        false
    }
}

/// Answers the request `data` (function code, then body) and applies its
/// writes: reads of holding and input registers (at most 125), of coils and
/// discrete inputs, writes of one register, of several registers and of one
/// coil (on when written 0xFF00). A request too short for its function, a
/// read of too many registers or a malformed multiple write is answered
/// with exception 3, an unknown function with exception 1; an empty request
/// gets no answer.
pub fn process_request(
    transaction_id: u16,
    unit_id: u8,
    data: &[u8],
    state: &mut MockModbusState,
) -> (r: Option<Vec<u8>>)
    requires
        !request_overflows(data@),
    ensures
        match r {
            Some(v) => reply(transaction_id, unit_id, data@, old(state).view_maps()) == Some(v@),
            None => reply(transaction_id, unit_id, data@, old(state).view_maps()) is None,
        },
        final(state).view_maps() == after(data@, old(state).view_maps()),
        final(state).request_count == old(state).request_count,
        final(state).fail_next == old(state).fail_next,
{
    if data.len() == 0 {
        return None;
    }
    let function_code = data[0];
    let body = slice_from_one(data);
    if function_code == READ_HOLDING_REGISTERS {
        read_registers(transaction_id, unit_id, function_code, body, &state.holding_registers)
    } else if function_code == READ_INPUT_REGISTERS {
        read_registers(transaction_id, unit_id, function_code, body, &state.input_registers)
    } else if function_code == WRITE_SINGLE_REGISTER {
        if body.len() < 4 {
            return build_exception_response(
                transaction_id,
                unit_id,
                function_code,
                ILLEGAL_DATA_VALUE,
            );
        }
        let addr = be_word(body[0], body[1]);
        let value = be_word(body[2], body[3]);
        state.holding_registers.insert(addr, value);
        Some(echo(transaction_id, unit_id, function_code, body))
    } else if function_code == WRITE_MULTIPLE_REGISTERS {
        write_multiple_registers(transaction_id, unit_id, body, &mut state.holding_registers)
    } else if function_code == READ_COILS {
        read_bits(transaction_id, unit_id, function_code, body, &state.coils)
    } else if function_code == READ_DISCRETE_INPUTS {
        read_bits(transaction_id, unit_id, function_code, body, &state.discrete_inputs)
    } else if function_code == WRITE_SINGLE_COIL {
        if body.len() < 4 {
            return build_exception_response(
                transaction_id,
                unit_id,
                function_code,
                ILLEGAL_DATA_VALUE,
            );
        }
        let addr = be_word(body[0], body[1]);
        let value = be_word(body[2], body[3]);
        state.coils.insert(addr, value == 0xFF00);
        Some(echo(transaction_id, unit_id, function_code, body))
    } else {
        build_exception_response(transaction_id, unit_id, function_code, ILLEGAL_FUNCTION)
    }
}

fn slice_from_one(data: &[u8]) -> (r: &[u8])
    requires
        data@.len() > 0,
    ensures
        r@ == data@.skip(1),
{
    let r = vstd::slice::slice_subrange(data, 1, data.len());
    assert(r@ =~= data@.skip(1));
    r
}

/// Counts a request and answers it (see [`process_request`]).
pub fn serve_request(
    transaction_id: u16,
    unit_id: u8,
    data: &[u8],
    state: &mut MockModbusState,
) -> (r: Option<Vec<u8>>)
    requires
        !request_overflows(data@),
        old(state).request_count < usize::MAX,
    ensures
        match r {
            Some(v) => reply(transaction_id, unit_id, data@, old(state).view_maps()) == Some(v@),
            None => reply(transaction_id, unit_id, data@, old(state).view_maps()) is None,
        },
        final(state).view_maps() == after(data@, old(state).view_maps()),
        final(state).request_count == old(state).request_count + 1,
        final(state).fail_next == old(state).fail_next,
{
    state.request_count = state.request_count + 1;
    process_request(transaction_id, unit_id, data, state)
}

/// What is read back is what was written: after a single-register write, a
/// read of that register answers the value written.
pub proof fn lemma_read_after_write(tid: u16, unit: u8, addr: u16, value: u16, v: MockView)
    ensures
        ({
            let write = seq![WRITE_SINGLE_REGISTER, (addr / 256) as u8, (addr % 256) as u8, (value
                / 256) as u8, (value % 256) as u8];
            let w = after(write, v);
            &&& reg(w.holding, addr as int) == value
            &&& register_bytes(w.holding, addr, 1) == be(value)
        }),
{
    let write = seq![WRITE_SINGLE_REGISTER, (addr / 256) as u8, (addr % 256) as u8, (value / 256) as u8, (
    value % 256) as u8];
    let b = write.skip(1);
    assert(b =~= seq![(addr / 256) as u8, (addr % 256) as u8, (value / 256) as u8, (value % 256) as u8]);
    assert(word_at(b, 0) == addr);
    assert(word_at(b, 2) == value);
    let w = after(write, v);
    assert(w.holding == v.holding.insert(addr, value));
    assert(register_bytes(w.holding, addr, 1) =~= be(value));
}

} // verus!
