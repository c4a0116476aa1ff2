//! Modbus operations and what can be decided about them without a network:
//! which request a write becomes, how a coil reply turns into register
//! values, when a failure is worth a reconnect, and the bookkeeping of a pool
//! of idle connections.

use crate::text::chars_of;
use crate::workers::modbus::operations::RegisterType;
use std::collections::VecDeque;
use vstd::prelude::*;

verus! {

/// One value of a write: a coil bit or a holding register word.
#[derive(Debug, Clone, Copy, PartialEq, Eq, Structural)]
pub enum WriteValue {
    Coil(bool),
    Holding(u16),
}

/// A Modbus operation on a device.
#[derive(Debug, Clone)]
pub enum ModbusOp {
    ReadCoil { address: u16, count: u16 },
    ReadDiscrete { address: u16, count: u16 },
    ReadInput { address: u16, count: u16 },
    ReadHolding { address: u16, count: u16 },
    WriteSingle { address: u16, value: u16 },
    WriteMultiple { address: u16, values: Vec<u16> },
    WriteSingleCoil { address: u16, value: bool },
    WriteMultipleCoils { address: u16, values: Vec<bool> },
}

/// The mathematical value of a [`ModbusOp`].
pub enum OpView {
    ReadCoil { address: u16, count: u16 },
    ReadDiscrete { address: u16, count: u16 },
    ReadInput { address: u16, count: u16 },
    ReadHolding { address: u16, count: u16 },
    WriteSingle { address: u16, value: u16 },
    WriteMultiple { address: u16, values: Seq<u16> },
    WriteSingleCoil { address: u16, value: bool },
    WriteMultipleCoils { address: u16, values: Seq<bool> },
}

impl View for ModbusOp {
    type V = OpView;

    open spec fn view(&self) -> OpView {
        match self {
            ModbusOp::ReadCoil { address, count } => OpView::ReadCoil { address: *address, count: *count },
            ModbusOp::ReadDiscrete { address, count } => OpView::ReadDiscrete {
                address: *address,
                count: *count,
            },
            ModbusOp::ReadInput { address, count } => OpView::ReadInput {
                address: *address,
                count: *count,
            },
            ModbusOp::ReadHolding { address, count } => OpView::ReadHolding {
                address: *address,
                count: *count,
            },
            ModbusOp::WriteSingle { address, value } => OpView::WriteSingle {
                address: *address,
                value: *value,
            },
            ModbusOp::WriteMultiple { address, values } => OpView::WriteMultiple {
                address: *address,
                values: values@,
            },
            ModbusOp::WriteSingleCoil { address, value } => OpView::WriteSingleCoil {
                address: *address,
                value: *value,
            },
            ModbusOp::WriteMultipleCoils { address, values } => OpView::WriteMultipleCoils {
                address: *address,
                values: values@,
            },
        }
    }
}

/// What an operation asks of the device: a read of registers of one kind, or
/// a write of values.
#[derive(Debug, Clone)]
pub enum OpRequest {
    Read { kind: RegisterType, address: u16, count: u16 },
    Write { address: u16, values: Vec<WriteValue> },
}

/// The register kind, address and count that `op` reads, if it reads.
pub open spec fn requested_read(op: ModbusOp) -> Option<(RegisterType, u16, u16)> {
    match op {
        ModbusOp::ReadCoil { address, count } => Some((RegisterType::Coil, address, count)),
        ModbusOp::ReadDiscrete { address, count } => Some((RegisterType::Discrete, address, count)),
        ModbusOp::ReadInput { address, count } => Some((RegisterType::Input, address, count)),
        ModbusOp::ReadHolding { address, count } => Some((RegisterType::Holding, address, count)),
        _ => None,
    }
}

/// The address and values that `op` writes, if it writes.
pub open spec fn requested_write(op: ModbusOp) -> Option<(u16, Seq<WriteValue>)> {
    match op {
        ModbusOp::WriteSingle { address, value } => Some(
            (address, seq![WriteValue::Holding(value)]),
        ),
        ModbusOp::WriteMultiple { address, values } => Some(
            (address, values@.map_values(|v: u16| WriteValue::Holding(v))),
        ),
        ModbusOp::WriteSingleCoil { address, value } => Some(
            (address, seq![WriteValue::Coil(value)]),
        ),
        ModbusOp::WriteMultipleCoils { address, values } => Some(
            (address, values@.map_values(|b: bool| WriteValue::Coil(b))),
        ),
        _ => None,
    }
}

/// The read or write that `op` asks of the device.
pub fn op_request(op: &ModbusOp) -> (r: OpRequest)
    ensures
        match r {
            OpRequest::Read { kind, address, count } => requested_read(*op) == Some(
                (kind, address, count),
            ),
            OpRequest::Write { address, values } => requested_write(*op) == Some(
                (address, values@),
            ),
        },
{
    match op {
        ModbusOp::ReadCoil { address, count } => OpRequest::Read {
            kind: RegisterType::Coil,
            address: *address,
            count: *count,
        },
        ModbusOp::ReadDiscrete { address, count } => OpRequest::Read {
            kind: RegisterType::Discrete,
            address: *address,
            count: *count,
        },
        ModbusOp::ReadInput { address, count } => OpRequest::Read {
            kind: RegisterType::Input,
            address: *address,
            count: *count,
        },
        ModbusOp::ReadHolding { address, count } => OpRequest::Read {
            kind: RegisterType::Holding,
            address: *address,
            count: *count,
        },
        ModbusOp::WriteSingle { address, value } => {
            let values = vec![WriteValue::Holding(*value)];
            assert(values@ =~= seq![WriteValue::Holding(*value)]);
            OpRequest::Write { address: *address, values }
        },
        ModbusOp::WriteMultiple { address, values } => {
            let mut out: Vec<WriteValue> = Vec::new();
            let mut i: usize = 0;
            while i < values.len()
                invariant
                    i <= values@.len(),
                    out@ == values@.take(i as int).map_values(|v: u16| WriteValue::Holding(v)),
                decreases values.len() - i,
            {
                out.push(WriteValue::Holding(values[i]));
                assert(values@.take(i + 1).map_values(|v: u16| WriteValue::Holding(v)) =~= out@);
                i = i + 1;
            }
            assert(values@.take(i as int) =~= values@);
            OpRequest::Write { address: *address, values: out }
        },
        ModbusOp::WriteSingleCoil { address, value } => {
            let values = vec![WriteValue::Coil(*value)];
            assert(values@ =~= seq![WriteValue::Coil(*value)]);
            OpRequest::Write { address: *address, values }
        },
        ModbusOp::WriteMultipleCoils { address, values } => {
            let mut out: Vec<WriteValue> = Vec::new();
            let mut i: usize = 0;
            while i < values.len()
                invariant
                    i <= values@.len(),
                    out@ == values@.take(i as int).map_values(|b: bool| WriteValue::Coil(b)),
                decreases values.len() - i,
            {
                out.push(WriteValue::Coil(values[i]));
                assert(values@.take(i + 1).map_values(|b: bool| WriteValue::Coil(b)) =~= out@);
                i = i + 1;
            }
            assert(values@.take(i as int) =~= values@);
            OpRequest::Write { address: *address, values: out }
        },
    }
}

/// A write as it goes to the device.
#[derive(Debug, Clone)]
pub enum WriteRequest {
    /// One coil, written as the word 0xFF00 (on) or 0x0000 (off).
    SingleCoil { address: u16, word: u16 },
    /// Several coils, one byte 0xFF (on) or 0x00 (off) each.
    MultipleCoils { address: u16, count: u16, bytes: Vec<u8> },
    SingleRegister { address: u16, value: u16 },
    MultipleRegisters { address: u16, count: u16, values: Vec<u16> },
}

/// Whether every value is of the kind of the first.
pub open spec fn same_kind(s: Seq<WriteValue>) -> bool {
    forall|i: int| 0 <= i < s.len() ==> (#[trigger] s[i] is Coil) == (s[0] is Coil)
}

pub open spec fn coil_on(v: WriteValue) -> bool {
    match v {
        WriteValue::Coil(b) => b,
        WriteValue::Holding(_) => false,
    }
}

pub open spec fn holding_word(v: WriteValue) -> u16 {
    match v {
        WriteValue::Holding(u) => u,
        WriteValue::Coil(_) => 0,
    }
}

/// The count field of a write of `n` values, a `u16` that wraps.
pub open spec fn wire_count(n: nat) -> u16 {
    (n % 65536) as u16
}

pub open spec fn coil_byte(v: WriteValue) -> u8 {
    if coil_on(v) {
        0xFF
    } else {
        0x00
    }
}

pub open spec fn coil_word(v: WriteValue) -> u16 {
    if coil_on(v) {
        0xFF00
    } else {
        0x0000
    }
}

/// Turns the values of a write into the request that goes to the device.
/// Refused when there are none or when coils and registers are mixed. A
/// count of one, taken as a wrapping `u16`, is written with the single-value
/// function code.
pub fn plan_write(address: u16, values: &[WriteValue]) -> (r: Result<WriteRequest, String>)
    ensures
        values@.len() == 0 ==> (r matches Err(m) && m@ == "Cannot write empty values slice"@),
        values@.len() > 0 && !same_kind(values@) ==> (r matches Err(m) && m@
            == "Cannot mix Coil and Holding types in single write operation"@),
        values@.len() > 0 && same_kind(values@) && values@[0] is Coil ==> match r {
            Ok(WriteRequest::SingleCoil { address: a, word }) => {
                &&& wire_count(values@.len()) == 1
                &&& a == address
                &&& word == coil_word(values@[0])
            },
            Ok(WriteRequest::MultipleCoils { address: a, count, bytes }) => {
                &&& wire_count(values@.len()) != 1
                &&& a == address
                &&& count == wire_count(values@.len())
                &&& bytes@ == values@.map_values(|v: WriteValue| coil_byte(v))
            },
            _ => false,
        },
        values@.len() > 0 && same_kind(values@) && values@[0] is Holding ==> match r {
            Ok(WriteRequest::SingleRegister { address: a, value }) => {
                &&& wire_count(values@.len()) == 1
                &&& a == address
                &&& value == holding_word(values@[0])
            },
            Ok(WriteRequest::MultipleRegisters { address: a, count, values: words }) => {
                &&& wire_count(values@.len()) != 1
                &&& a == address
                &&& count == wire_count(values@.len())
                &&& words@ == values@.map_values(|v: WriteValue| holding_word(v))
            },
            _ => false,
        },
{
    if values.len() == 0 {
        return Err("Cannot write empty values slice".to_owned());
    }
    let first_is_coil = match values[0] {
        WriteValue::Coil(_) => true,
        WriteValue::Holding(_) => false,
    };
    let mut i: usize = 0;
    while i < values.len()
        invariant
            0 < values@.len(),
            i <= values@.len(),
            first_is_coil == values@[0] is Coil,
            forall|j: int| 0 <= j < i ==> (#[trigger] values@[j] is Coil) == first_is_coil,
        decreases values.len() - i,
    {
        let this_is_coil = match values[i] {
            WriteValue::Coil(_) => true,
            WriteValue::Holding(_) => false,
        };
        if this_is_coil != first_is_coil {
            return Err("Cannot mix Coil and Holding types in single write operation".to_owned());
        }
        i = i + 1;
    }
    let count: u16 = (values.len() % 65536) as u16;
    if first_is_coil {
        if count == 1 {
            let word: u16 = match values[0] {
                WriteValue::Coil(true) => 0xFF00,
                _ => 0x0000,
            };
            return Ok(WriteRequest::SingleCoil { address, word });
        }
        let mut bytes: Vec<u8> = Vec::new();
        let mut k: usize = 0;
        while k < values.len()
            invariant
                k <= values@.len(),
                bytes@ == values@.take(k as int).map_values(|v: WriteValue| coil_byte(v)),
            decreases values.len() - k,
        {
            let b: u8 = match values[k] {
                WriteValue::Coil(true) => 0xFF,
                _ => 0x00,
            };
            bytes.push(b);
            assert(values@.take(k + 1).map_values(|v: WriteValue| coil_byte(v)) =~= bytes@);
            k = k + 1;
        }
        assert(values@.take(k as int) =~= values@);
        Ok(WriteRequest::MultipleCoils { address, count, bytes })
    } else {
        if count == 1 {
            let value: u16 = match values[0] {
                WriteValue::Holding(u) => u,
                _ => 0,
            };
            return Ok(WriteRequest::SingleRegister { address, value });
        }
        let mut words: Vec<u16> = Vec::new();
        let mut k: usize = 0;
        while k < values.len()
            invariant
                k <= values@.len(),
                words@ == values@.take(k as int).map_values(|v: WriteValue| holding_word(v)),
            decreases values.len() - k,
        {
            let w: u16 = match values[k] {
                WriteValue::Holding(u) => u,
                _ => 0,
            };
            words.push(w);
            assert(values@.take(k + 1).map_values(|v: WriteValue| holding_word(v)) =~= words@);
            k = k + 1;
        }
        assert(values@.take(k as int) =~= values@);
        Ok(WriteRequest::MultipleRegisters { address, count, values: words })
    }
}

/// Coil or discrete input bytes as register values: 1 for a set bit, 0
/// otherwise.
pub fn coils_to_registers(bytes: &[u8]) -> (r: Vec<u16>)
    ensures
        r@ == bytes@.map_values(|b: u8| if b != 0 { 1u16 } else { 0u16 }),
{
    let mut out: Vec<u16> = Vec::new();
    let mut i: usize = 0;
    while i < bytes.len()
        invariant
            i <= bytes@.len(),
            out@ == bytes@.take(i as int).map_values(|b: u8| if b != 0 { 1u16 } else { 0u16 }),
        decreases bytes.len() - i,
    {
        let v: u16 = if bytes[i] != 0 {
            1
        } else {
            0
        };
        out.push(v);
        assert(bytes@.take(i + 1).map_values(|b: u8| if b != 0 { 1u16 } else { 0u16 }) =~= out@);
        i = i + 1;
    }
    assert(bytes@.take(i as int) =~= bytes@);
    out
}

/// Whether `p` appears in `s` from index `i` on.
pub open spec fn matches_at(s: Seq<char>, p: Seq<char>, i: int) -> bool {
    0 <= i && i + p.len() <= s.len() && s.subrange(i, i + p.len()) == p
}

/// Whether `p` appears anywhere in `s`.
pub open spec fn occurs_in(p: Seq<char>, s: Seq<char>) -> bool {
    exists|i: int| #[trigger] matches_at(s, p, i)
}

/// Whether an error message shows that the TCP connection itself broke.
pub open spec fn broken_connection_message(e: Seq<char>) -> bool {
    ||| occurs_in("I/O error"@, e)
    ||| occurs_in("failed to fill"@, e)
    ||| occurs_in("Broken pipe"@, e)
    ||| occurs_in("connection closed"@, e)
    ||| occurs_in("connection reset"@, e)
}

fn match_here(s: &Vec<char>, p: &Vec<char>, i: usize) -> (b: bool)
    requires
        i + p@.len() <= s@.len(),
    ensures
        b == matches_at(s@, p@, i as int),
{
    let n = s.len();
    let mut k: usize = 0;
    while k < p.len()
        invariant
            n == s@.len(),
            k <= p@.len(),
            i + p@.len() <= s@.len(),
            forall|j: int| 0 <= j < k ==> s@[i + j] == p@[j],
        decreases p.len() - k,
    {
        if s[i + k] != p[k] {
            assert(s@.subrange(i as int, i + p@.len())[k as int] != p@[k as int]);
            return false;
        }
        k = k + 1;
    }
    assert(s@.subrange(i as int, i + p@.len()) =~= p@);
    true
}

fn contains_chars(s: &Vec<char>, p: &Vec<char>) -> (b: bool)
    ensures
        b == occurs_in(p@, s@),
{
    if p.len() > s.len() {
        assert forall|i: int| !matches_at(s@, p@, i) by {}
        return false;
    }
    let last = s.len() - p.len();
    let mut i: usize = 0;
    while i <= last
        invariant
            last + p@.len() == s@.len(),
            forall|j: int| 0 <= j < i ==> !matches_at(s@, p@, j),
        decreases last + 1 - i,
    {
        if match_here(s, p, i) {
            return true;
        }
        if i == last {
            assert forall|j: int| !matches_at(s@, p@, j) by {
                if 0 <= j && j + p@.len() <= s@.len() {
                    assert(j <= last);
                }
            }
            return false;
        }
        i = i + 1;
    }
    false
}

/// Whether `error` shows a broken TCP connection, after which the operation
/// is tried once more on a new connection.
pub fn is_connection_broken(error: &str) -> (b: bool)
    ensures
        b == broken_connection_message(error@),
{
    let e = chars_of(error);
    contains_chars(&e, &chars_of("I/O error")) || contains_chars(&e, &chars_of("failed to fill"))
        || contains_chars(&e, &chars_of("Broken pipe")) || contains_chars(
        &e,
        &chars_of("connection closed"),
    ) || contains_chars(&e, &chars_of("connection reset"))
}

/// Whether a finished operation should be retried on a fresh connection: it
/// failed with an error that shows a broken connection.
pub fn needs_reconnect(success: bool, error: &Option<String>) -> (b: bool)
    ensures
        b == (!success && match error {
            Some(e) => broken_connection_message(e@),
            None => false,
        }),
{
    if success {
        return false;
    }
    match error {
        Some(e) => is_connection_broken(e.as_str()),
        None => false,
    }
}

/// What a client call does after an attempt of its operation.
#[derive(Debug, Clone, Copy, PartialEq, Eq, Structural)]
pub enum AttemptStep {
    /// Answer with the attempt's result.
    Return,
    /// Drop the connection, connect again and run the operation once more.
    ReconnectAndRetry,
}

/// The step after an attempt: a first attempt that failed on a broken
/// connection is retried on a fresh one; everything else, a retry
/// included, is answered. So a call reconnects and retries at most once.
pub fn after_attempt(retried: bool, success: bool, error: &Option<String>) -> (s: AttemptStep)
    ensures
        (s is ReconnectAndRetry) == (!retried && !success && match error {
            Some(e) => broken_connection_message(e@),
            None => false,
        }),
{
    if !retried && needs_reconnect(success, error) {
        AttemptStep::ReconnectAndRetry
    } else {
        AttemptStep::Return
    }
}

/// The error of a call whose connection could not be made: `Connection
/// failed: ` before the first attempt, `Reconnection failed: ` before the
/// retry, then the reason.
pub fn connect_failure(retrying: bool, reason: &str) -> (m: String)
    ensures
        m@ == (if retrying {
            "Reconnection failed: "@
        } else {
            "Connection failed: "@
        }) + reason@,
{
    let mut out: Vec<char> = Vec::new();
    if retrying {
        crate::text::push_str(&mut out, "Reconnection failed: ");
    } else {
        crate::text::push_str(&mut out, "Connection failed: ");
    }
    crate::text::push_str(&mut out, reason);
    crate::text::string_from_chars(&out)
}

/// An idle connection kept for reuse, with the time it was put back.
pub struct PooledConnection<C> {
    pub client: C,
    pub last_used_ms: u64,
    pub is_healthy: bool,
}

/// Milliseconds since `last_used`; zero when the clock went back.
pub open spec fn connection_age(last_used: u64, now: u64) -> u64 {
    if now >= last_used {
        (now - last_used) as u64
    } else {
        0
    }
}

/// Whether an idle connection may be handed out: it is healthy and younger
/// than the health-check interval.
pub open spec fn reusable<C>(p: PooledConnection<C>, now: u64, interval: u64) -> bool {
    p.is_healthy && connection_age(p.last_used_ms, now) < interval
}

/// The index of the first reusable connection of `s`, or its length when
/// none is.
pub open spec fn first_reusable<C>(s: Seq<PooledConnection<C>>, now: u64, interval: u64) -> nat
    decreases s.len(),
{
    if s.len() == 0 {
        0
    } else if reusable(s[0], now, interval) {
        0
    } else {
        1 + first_reusable(s.drop_first(), now, interval)
    }
}

/// `x - 1` in the wrapping arithmetic of a counter.
pub open spec fn less_one(x: usize) -> usize {
    if x == 0 {
        usize::MAX
    } else {
        (x - 1) as usize
    }
}

/// `x` lowered `k` times by one, wrapping.
pub open spec fn lowered(x: usize, k: nat) -> usize
    decreases k,
{
    if k == 0 {
        x
    } else {
        less_one(lowered(x, (k - 1) as nat))
    }
}

impl<C> PooledConnection<C> {
    /// A healthy connection put back at `now_ms`.
    pub fn new(client: C, now_ms: u64) -> (p: Self)
        ensures
            p.client == client,
            p.last_used_ms == now_ms,
            p.is_healthy,
    {
        PooledConnection { client, last_used_ms: now_ms, is_healthy: true }
    }

    /// Milliseconds since the connection was put back.
    pub fn age(&self, now_ms: u64) -> (a: u64)
        ensures
            a == connection_age(self.last_used_ms, now_ms),
    {
        if now_ms >= self.last_used_ms {
            now_ms - self.last_used_ms
        } else {
            0
        }
    }
}

/// A pool of idle connections to one device, reused oldest first. It keeps
/// at most `pool_size` of them, and counts the connections it has created
/// and not yet discarded.
pub struct ModbusConnectionPool<C> {
    endpoint: String,
    unit_id: u8,
    pool_size: usize,
    health_check_interval_ms: u64,
    available: VecDeque<PooledConnection<C>>,
    total_created: usize,
    transaction_id: u16,
}

impl<C> ModbusConnectionPool<C> {
    #[verifier::type_invariant]
    spec fn wf(self) -> bool {
        self.available@.len() <= self.pool_size
    }

    /// The idle connections, oldest first.
    pub closed spec fn idle(self) -> Seq<PooledConnection<C>> {
        self.available@
    }

    /// The count of connections created and not discarded.
    pub closed spec fn created(self) -> usize {
        self.total_created
    }

    /// The most idle connections kept.
    pub closed spec fn capacity(self) -> usize {
        self.pool_size
    }

    /// How long an idle connection stays reusable, in milliseconds.
    pub closed spec fn interval_ms(self) -> u64 {
        self.health_check_interval_ms
    }

    /// The transaction identifier handed out next.
    pub closed spec fn next_transaction(self) -> u16 {
        self.transaction_id
    }

    pub closed spec fn endpoint_view(self) -> Seq<char> {
        self.endpoint@
    }

    pub closed spec fn unit(self) -> u8 {
        self.unit_id
    }

    /// An empty pool; transaction identifiers start at 1.
    pub fn new(endpoint: String, unit_id: u8, pool_size: usize, health_check_interval_ms: u64) -> (p:
        Self)
        ensures
            p.idle() == Seq::<PooledConnection<C>>::empty(),
            p.created() == 0,
            p.capacity() == pool_size,
            p.interval_ms() == health_check_interval_ms,
            p.next_transaction() == 1,
            p.endpoint_view() == endpoint@,
            p.unit() == unit_id,
    {
        ModbusConnectionPool {
            endpoint,
            unit_id,
            pool_size,
            health_check_interval_ms,
            available: VecDeque::new(),
            total_created: 0,
            transaction_id: 1,
        }
    }

    pub fn pool_size(&self) -> (n: usize)
        ensures
            n == self.capacity(),
    {
        self.pool_size
    }

    pub fn available_count(&self) -> (n: usize)
        ensures
            n == self.idle().len(),
            n <= self.capacity(),
    {
        proof {
            use_type_invariant(self);
        }
        self.available.len()
    }

    pub fn total_created(&self) -> (n: usize)
        ensures
            n == self.created(),
    {
        self.total_created
    }

    pub fn endpoint(&self) -> (e: &str)
        ensures
            e@ == self.endpoint_view(),
    {
        self.endpoint.as_str()
    }

    pub fn unit_id(&self) -> (u: u8)
        ensures
            u == self.unit(),
    {
        self.unit_id
    }

    /// Hands out the oldest reusable idle connection. The connections before
    /// it, unhealthy or older than the health-check interval, are discarded
    /// and no longer counted; `None` when no idle connection is reusable, and
    /// then every idle one is discarded.
    pub fn take_connection(&mut self, now_ms: u64) -> (r: Option<C>)
        ensures
            final(self).capacity() == old(self).capacity(),
            final(self).interval_ms() == old(self).interval_ms(),
            final(self).next_transaction() == old(self).next_transaction(),
            final(self).endpoint_view() == old(self).endpoint_view(),
            final(self).unit() == old(self).unit(),
            ({
                let k = first_reusable(old(self).idle(), now_ms, old(self).interval_ms());
                &&& final(self).created() == lowered(old(self).created(), k)
                &&& if k < old(self).idle().len() {
                    &&& r == Some(old(self).idle()[k as int].client)
                    &&& final(self).idle() == old(self).idle().skip(k as int + 1)
                } else {
                    &&& r is None
                    &&& final(self).idle() == Seq::<PooledConnection<C>>::empty()
                }
            }),
    {
        proof {
            use_type_invariant(&*self);
        }
        let ghost start = self.available@;
        let ghost k = first_reusable(start, now_ms, self.health_check_interval_ms);
        let ghost start_total = self.total_created;
        let mut available = VecDeque::new();
        std::mem::swap(&mut available, &mut self.available);
        let interval = self.health_check_interval_ms;
        let mut total = self.total_created;
        let ghost mut dropped: nat = 0;
        proof {
            lemma_first_reusable_bound(start, now_ms, interval);
        }
        loop
            invariant_except_break
                available@ == start.skip(dropped as int),
                dropped <= k,
                k == first_reusable(start, now_ms, interval),
                k <= start.len(),
                first_reusable(available@, now_ms, interval) == k - dropped,
                total == lowered(start_total, dropped),
            ensures
                available@ == start.skip(k as int),
                total == lowered(start_total, k),
            decreases available@.len(),
        {
            if available.len() == 0 {
                break;
            }
            let stop = available[0].is_healthy && available[0].age(now_ms) < interval;
            if stop {
                break;
            }
            proof {
                assert(start.skip(dropped as int + 1) =~= available@.drop_first());
            }
            available.pop_front();
            total = if total == 0 {
                usize::MAX
            } else {
                total - 1
            };
            proof {
                dropped = dropped + 1;
            }
        }
        self.total_created = total;
        let front = available.pop_front();
        proof {
            if k < start.len() {
                assert(available@ =~= start.skip(k as int + 1));
            } else {
                assert(available@ =~= Seq::<PooledConnection<C>>::empty());
            }
        }
        self.available = available;
        match front {
            Some(p) => Some(p.client),
            None => None,
        }
    }

    /// Counts one more created connection (wrapping).
    pub fn record_created(&mut self)
        ensures
            final(self).idle() == old(self).idle(),
            final(self).created() == if old(self).created() == usize::MAX {
                0
            } else {
                (old(self).created() + 1) as usize
            },
            final(self).capacity() == old(self).capacity(),
            final(self).interval_ms() == old(self).interval_ms(),
            final(self).next_transaction() == old(self).next_transaction(),
            final(self).endpoint_view() == old(self).endpoint_view(),
            final(self).unit() == old(self).unit(),
    {
        proof {
            use_type_invariant(&*self);
        }
        self.total_created = if self.total_created == usize::MAX {
            0
        } else {
            self.total_created + 1
        };
    }

    /// Returns a connection after an operation: kept at the back, stamped
    /// with `now_ms`, when the operation succeeded and there is room;
    /// otherwise discarded and no longer counted.
    pub fn release_connection(&mut self, client: C, is_healthy: bool, now_ms: u64)
        ensures
            final(self).capacity() == old(self).capacity(),
            final(self).interval_ms() == old(self).interval_ms(),
            final(self).next_transaction() == old(self).next_transaction(),
            final(self).endpoint_view() == old(self).endpoint_view(),
            final(self).unit() == old(self).unit(),
            if is_healthy && old(self).idle().len() < old(self).capacity() {
                &&& final(self).idle() == old(self).idle().push(
                    PooledConnection { client, last_used_ms: now_ms, is_healthy: true },
                )
                &&& final(self).created() == old(self).created()
            } else {
                &&& final(self).idle() == old(self).idle()
                &&& final(self).created() == less_one(old(self).created())
            },
    {
        proof {
            use_type_invariant(&*self);
        }
        if !is_healthy || self.available.len() >= self.pool_size {
            self.total_created = if self.total_created == 0 {
                usize::MAX
            } else {
                self.total_created - 1
            };
            return ;
        }
        let mut available = VecDeque::new();
        std::mem::swap(&mut available, &mut self.available);
        available.push_back(PooledConnection::new(client, now_ms));
        self.available = available;
    }

    /// The next transaction identifier; the counter wraps.
    pub fn next_transaction_id(&mut self) -> (id: u16)
        ensures
            id == old(self).next_transaction(),
            final(self).next_transaction() == if id == u16::MAX {
                0
            } else {
                (id + 1) as u16
            },
            final(self).idle() == old(self).idle(),
            final(self).created() == old(self).created(),
            final(self).capacity() == old(self).capacity(),
            final(self).interval_ms() == old(self).interval_ms(),
            final(self).endpoint_view() == old(self).endpoint_view(),
            final(self).unit() == old(self).unit(),
    {
        proof {
            use_type_invariant(&*self);
        }
        let id = self.transaction_id;
        self.transaction_id = if id == u16::MAX {
            0
        } else {
            id + 1
        };
        id
    }
}

proof fn lemma_first_reusable_bound<C>(s: Seq<PooledConnection<C>>, now: u64, interval: u64)
    ensures
        first_reusable(s, now, interval) <= s.len(),
        first_reusable(s, now, interval) < s.len() ==> reusable(
            s[first_reusable(s, now, interval) as int],
            now,
            interval,
        ),
    decreases s.len(),
{
    if s.len() > 0 && !reusable(s[0], now, interval) {
        lemma_first_reusable_bound(s.drop_first(), now, interval);
    }
}

/// A connection released into an empty pool after a successful operation is
/// the one handed out next, as long as it is younger than the health-check
/// interval.
pub proof fn lemma_released_connection_is_reused<C>(client: C, put_back: u64, now: u64, interval: u64)
    requires
        connection_age(put_back, now) < interval,
    ensures
        ({
            let idle = Seq::<PooledConnection<C>>::empty().push(
                PooledConnection { client, last_used_ms: put_back, is_healthy: true },
            );
            &&& first_reusable(idle, now, interval) == 0
            &&& idle[0].client == client
        }),
{
}

} // verus!
