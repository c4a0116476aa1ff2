//! Middleware configuration: the data model read from `config.toml`, its
//! defaults, and its validation.

use crate::text::{
    all_digits, decimal_chars, decimal_value, encodes_below_two_bytes, is_ascii_char, is_digit,
    parse_unsigned, unsigned_digits,
    parse_unsigned_range, push_decimal, push_str, string_from_chars, trim, trimmed_chars,
};
use crate::time::{duration_of_millis, millis};
use std::time::Duration;
use vstd::prelude::*;

verus! {

// ===================== Streams =====================
/// Configuration of one data stream: a signal group polled at a fixed interval.
#[derive(Debug, Clone)]
pub struct StreamConfig {
    pub device_id: String,
    pub signal_group: String,
    /// Poll interval in milliseconds (valid range 5..=5000).
    pub poll_interval_ms: u32,
    pub enabled: bool,
    /// Priority (smaller is more urgent).
    pub priority: u8,
}

pub fn default_poll_interval_ms() -> (r: u32)
    ensures
        r == 100,
{
    100
}

pub fn default_stream_enabled() -> (r: bool)
    ensures
        r,
{
    true
}

pub open spec fn stream_interval_message(interval: u32) -> Seq<char> {
    "StreamConfig validation error: poll_interval_ms must be between 5 and 5000, got "@
        + decimal_chars(interval as nat)
}

/// Field-by-field equality of two stream configurations.
pub open spec fn same_stream(a: StreamConfig, b: StreamConfig) -> bool {
    &&& a.device_id@ == b.device_id@
    &&& a.signal_group@ == b.signal_group@
    &&& a.poll_interval_ms == b.poll_interval_ms
    &&& a.enabled == b.enabled
    &&& a.priority == b.priority
}

impl StreamConfig {
    pub open spec fn interval_in_range(&self) -> bool {
        5 <= self.poll_interval_ms <= 5000
    }

    /// Checks that the poll interval lies within 5..=5000 ms.
    pub fn validate(&self) -> (r: Result<(), String>)
        ensures
            match r {
                Ok(_) => self.interval_in_range(),
                Err(m) => !self.interval_in_range() && m@ == stream_interval_message(
                    self.poll_interval_ms,
                ),
            },
    {
        if self.poll_interval_ms < 5 || self.poll_interval_ms > 5000 {
            let mut msg: Vec<char> = Vec::new();
            push_str(
                &mut msg,
                "StreamConfig validation error: poll_interval_ms must be between 5 and 5000, got ",
            );
            push_decimal(&mut msg, self.poll_interval_ms as u64);
            return Err(string_from_chars(&msg));
        }
        Ok(())
    }

    /// Whether `self` and `other` hold the same values in every field.
    pub fn same_as(&self, other: &StreamConfig) -> (r: bool)
        ensures
            r == same_stream(*self, *other),
    {
        self.device_id == other.device_id && self.signal_group == other.signal_group
            && self.poll_interval_ms == other.poll_interval_ms && self.enabled == other.enabled
            && self.priority == other.priority
    }
}

/// Settings shared by all streams.
#[derive(Debug, Clone)]
pub struct StreamSettings {
    pub max_concurrent_streams: u32,
    pub cache_ttl_ms: u32,
    pub enable_websocket: bool,
    pub websocket_port: u16,
}

impl Default for StreamSettings {
    fn default() -> (r: Self)
        ensures
            r.max_concurrent_streams == 100,
            r.cache_ttl_ms == 5000,
            r.enable_websocket,
            r.websocket_port == 8082,
    {
        StreamSettings {
            max_concurrent_streams: default_max_concurrent_streams(),
            cache_ttl_ms: default_cache_ttl_ms(),
            enable_websocket: default_enable_websocket(),
            websocket_port: default_websocket_port(),
        }
    }
}

pub fn default_max_concurrent_streams() -> (r: u32)
    ensures
        r == 100,
{
    100
}

pub fn default_cache_ttl_ms() -> (r: u32)
    ensures
        r == 5000,
{
    5000
}

pub fn default_enable_websocket() -> (r: bool)
    ensures
        r,
{
    true
}

pub fn default_websocket_port() -> (r: u16)
    ensures
        r == 8082,
{
    8082
}

// ===================== Timeouts =====================
/// Timeouts of the middleware, in milliseconds unless noted.
#[derive(Debug, Clone)]
pub struct Timeouts {
    pub connect_timeout_ms: u16,
    pub operation_timeout_ms: u16,
    pub max_operation_timeout_ms: u16,
    pub hub_send_timeout_ms: u16,
    pub heartbeat_timeout_ms: u16,
    /// Connection pool health check interval, in seconds.
    pub pool_health_check_interval_sec: u16,
}

impl Default for Timeouts {
    fn default() -> (r: Self)
        ensures
            r.connect_timeout_ms == 200,
            r.operation_timeout_ms == 1000,
            r.max_operation_timeout_ms == 30000,
            r.hub_send_timeout_ms == 2000,
            r.heartbeat_timeout_ms == 1000,
            r.pool_health_check_interval_sec == 30,
    {
        Timeouts {
            connect_timeout_ms: default_connect_timeout_ms(),
            operation_timeout_ms: default_operation_timeout_ms(),
            max_operation_timeout_ms: default_max_operation_timeout_ms(),
            hub_send_timeout_ms: default_hub_send_timeout_ms(),
            heartbeat_timeout_ms: default_heartbeat_timeout_ms(),
            pool_health_check_interval_sec: default_pool_health_check_interval(),
        }
    }
}

pub fn default_connect_timeout_ms() -> (r: u16)
    ensures
        r == 200,
{
    200
}

pub fn default_operation_timeout_ms() -> (r: u16)
    ensures
        r == 1000,
{
    1000
}

pub fn default_max_operation_timeout_ms() -> (r: u16)
    ensures
        r == 30000,
{
    30000
}

pub fn default_hub_send_timeout_ms() -> (r: u16)
    ensures
        r == 2000,
{
    2000
}

pub fn default_heartbeat_timeout_ms() -> (r: u16)
    ensures
        r == 1000,
{
    1000
}

pub fn default_pool_health_check_interval() -> (r: u16)
    ensures
        r == 30,
{
    30
}

impl Timeouts {
    pub fn connect_timeout(&self) -> (d: Duration)
        ensures
            d == duration_of_millis(self.connect_timeout_ms as u64),
    {
        millis(self.connect_timeout_ms as u64)
    }

    pub fn operation_timeout(&self) -> (d: Duration)
        ensures
            d == duration_of_millis(self.operation_timeout_ms as u64),
    {
        millis(self.operation_timeout_ms as u64)
    }

    pub fn max_operation_timeout(&self) -> (d: Duration)
        ensures
            d == duration_of_millis(self.max_operation_timeout_ms as u64),
    {
        millis(self.max_operation_timeout_ms as u64)
    }

    pub fn hub_send_timeout(&self) -> (d: Duration)
        ensures
            d == duration_of_millis(self.hub_send_timeout_ms as u64),
    {
        millis(self.hub_send_timeout_ms as u64)
    }

    pub fn heartbeat_timeout(&self) -> (d: Duration)
        ensures
            d == duration_of_millis(self.heartbeat_timeout_ms as u64),
    {
        millis(self.heartbeat_timeout_ms as u64)
    }
}

// ===================== Server, logging, devices =====================
/// The root of the configuration.
#[derive(Debug, Clone, Default)]
pub struct Config {
    pub server: Server,
    pub logging: Logging,
    pub timeouts: Timeouts,
    pub devices: Vec<Device>,
    pub streams: Vec<StreamConfig>,
    pub stream_settings: StreamSettings,
}

/// Listening ports and runtime sizes of the servers.
#[derive(Debug, Clone, Default)]
pub struct Server {
    pub rpc_port: u16,
    pub http_port: u16,
    pub rpc_worker_threads: usize,
    pub rpc_max_blocking_threads: usize,
}

/// Log level, log file and rotation.
#[derive(Debug, Clone, Default)]
pub struct Logging {
    pub level: String,
    pub file: String,
    pub daily_rotation: bool,
}

/// One Modbus device and its signal groups.
#[derive(Debug, Clone)]
pub struct Device {
    pub id: String,
    pub device_type: DeviceType,
    pub address: String,
    pub port: u16,
    pub unit_id: u8,
    pub addressing_mode: AddressingMode,
    pub byte_order: ByteOrder,
    pub tcp_nodelay: bool,
    pub max_concurrent_ops: u8,
    pub max_pool_size: u8,
    pub heartbeat_interval_sec: u32,
    pub pool_health_check_interval_sec: u16,
    pub signal_groups: Vec<SignalGroup>,
}

pub fn default_tcp_nodelay() -> (r: bool)
    ensures
        r,
{
    true
}

pub fn default_max_concurrent_ops() -> (r: u8)
    ensures
        r == 10,
{
    10
}

pub fn default_max_pool_size() -> (r: u8)
    ensures
        r == 5,
{
    5
}

pub fn default_heartbeat_interval() -> (r: u32)
    ensures
        r == 30,
{
    30
}

pub fn default_rpc_worker_threads() -> (r: usize)
    ensures
        r == 4,
{
    4
}

pub fn default_rpc_max_blocking_threads() -> (r: usize)
    ensures
        r == 128,
{
    128
}

#[derive(Debug, Clone, Copy, PartialEq, Eq, Structural, Default)]
pub enum DeviceType {
    #[default]
    Plc,
    RobotArm,
}

#[derive(Debug, Clone, Copy, PartialEq, Eq, Structural, Default)]
pub enum AddressingMode {
    #[default]
    ZeroBased,
    OneBased,
}

/// Order of the bytes of a multi-byte value.
#[derive(Debug, Clone, Copy, PartialEq, Eq, Structural, Default)]
pub enum ByteOrder {
    /// Most significant byte first.
    #[default]
    BigEndian,
    /// All bytes reversed.
    LittleEndian,
    /// Bytes swapped within each 16-bit word.
    LittleEndianByteSwap,
    /// 16-bit words swapped within each pair of words.
    MidBig,
}

/// A named Modbus address.
#[derive(Debug, Clone)]
pub struct RegisterMapping {
    pub signal_name: String,
    pub address: String,
    pub data_type: DataType,
    pub access: AccessMode,
    pub description: String,
}

/// A group of related signals in a contiguous register range.
#[derive(Debug, Clone)]
pub struct SignalGroup {
    pub name: String,
    pub description: String,
    /// Modbus address with its type prefix, such as `h100`.
    pub register_address: String,
    pub register_count: u16,
    pub fields: Vec<FieldMapping>,
}

/// One field of a signal group, at a register offset within the group.
#[derive(Debug, Clone)]
pub struct FieldMapping {
    pub name: String,
    pub data_type: DataType,
    pub offset: u16,
}

/// The type of the value stored in registers.
#[derive(Debug, Clone, Copy, PartialEq, Eq, Structural, Default)]
pub enum DataType {
    #[default]
    U16,
    U32,
    I16,
    I32,
    F32,
    F64,
    Bool,
}

/// Read/write permission of a register.
#[derive(Debug, Clone, Copy, PartialEq, Eq, Structural, Default)]
pub enum AccessMode {
    #[default]
    Rw,
    Read,
    Write,
}

impl DataType {
    pub open spec fn registers(self) -> u16 {
        match self {
            DataType::U16 | DataType::I16 | DataType::Bool => 1,
            DataType::U32 | DataType::I32 | DataType::F32 => 2,
            DataType::F64 => 4,
        }
    }

    /// The number of 16-bit registers a value of this type occupies.
    pub fn required_registers(&self) -> (r: u16)
        ensures
            r == self.registers(),
    {
        match self {
            DataType::U16 | DataType::I16 | DataType::Bool => 1,
            DataType::U32 | DataType::I32 | DataType::F32 => 2,
            DataType::F64 => 4,
        }
    }
}

// ===================== Signal group validation =====================
/// `offset + required registers`, saturating at `u16::MAX`.
pub open spec fn field_end(f: FieldMapping) -> int {
    let e = f.offset + f.data_type.registers();
    if e > u16::MAX {
        u16::MAX as int
    } else {
        e
    }
}

pub open spec fn duplicate_field_message(field: Seq<char>, group: Seq<char>) -> Seq<char> {
    "Duplicate field name '"@ + field + "' in signal group '"@ + group + "'"@
}

pub open spec fn field_size_message(
    field: Seq<char>,
    group: Seq<char>,
    required: u16,
    count: u16,
) -> Seq<char> {
    "Field '"@ + field + "' in signal group '"@ + group + "' requires "@ + decimal_chars(
        required as nat,
    ) + " registers, but group only has "@ + decimal_chars(count as nat)
}

/// The problem with field `i` of `g`, if any: a name that an earlier field
/// already has, or a field whose offset plus its size passes the group.
pub open spec fn field_issue(g: SignalGroup, i: int) -> Option<Seq<char>> {
    let f = g.fields@[i];
    if exists|j: int| 0 <= j < i && #[trigger] g.fields@[j].name@ == f.name@ {
        Some(duplicate_field_message(f.name@, g.name@))
    } else if f.offset + f.data_type.registers() > g.register_count {
        Some(field_size_message(f.name@, g.name@, f.data_type.registers(), g.register_count))
    } else {
        None
    }
}

/// The first problem among the fields of `g` from index `i` on.
pub open spec fn first_field_issue(g: SignalGroup, i: int) -> Option<Seq<char>>
    decreases g.fields@.len() - i,
{
    if 0 <= i < g.fields@.len() {
        match field_issue(g, i) {
            Some(m) => Some(m),
            None => first_field_issue(g, i + 1),
        }
    } else {
        None
    }
}

impl SignalGroup {
    /// Checks that field names are unique and that every field fits in the group.
    pub fn validate(&self) -> (r: Result<(), String>)
        ensures
            match r {
                Ok(_) => first_field_issue(*self, 0) is None,
                Err(m) => first_field_issue(*self, 0) == Some(m@),
            },
    {
        let n = self.fields.len();
        let mut i: usize = 0;
        while i < n
            invariant
                i <= n == self.fields.len(),
                first_field_issue(*self, 0) == first_field_issue(*self, i as int),
            decreases n - i,
        {
            let field = &self.fields[i];
            let mut j: usize = 0;
            let mut dup = false;
            while j < i
                invariant
                    j <= i < n == self.fields.len(),
                    field == self.fields@[i as int],
                    dup == exists|k: int| 0 <= k < j && #[trigger] self.fields@[k].name@ == field.name@,
                decreases i - j,
            {
                if self.fields[j].name == field.name {
                    dup = true;
                }
                j = j + 1;
            }
            if dup {
                let mut msg: Vec<char> = Vec::new();
                push_str(&mut msg, "Duplicate field name '");
                push_str(&mut msg, field.name.as_str());
                push_str(&mut msg, "' in signal group '");
                push_str(&mut msg, self.name.as_str());
                push_str(&mut msg, "'");
                assert(msg@ =~= duplicate_field_message(field.name@, self.name@));
                return Err(string_from_chars(&msg));
            }
            let required = field.data_type.required_registers();
            let end_offset = field.offset as u32 + required as u32;
            if end_offset > self.register_count as u32 {
                let mut msg: Vec<char> = Vec::new();
                push_str(&mut msg, "Field '");
                push_str(&mut msg, field.name.as_str());
                push_str(&mut msg, "' in signal group '");
                push_str(&mut msg, self.name.as_str());
                push_str(&mut msg, "' requires ");
                push_decimal(&mut msg, required as u64);
                push_str(&mut msg, " registers, but group only has ");
                push_decimal(&mut msg, self.register_count as u64);
                assert(msg@ =~= field_size_message(
                    field.name@,
                    self.name@,
                    required,
                    self.register_count,
                ));
                return Err(string_from_chars(&msg));
            }
            i = i + 1;
        }
        Ok(())
    }
}


// ===================== Configuration errors =====================
/// What went wrong while loading or validating the configuration.
#[derive(Debug)]
pub enum ConfigError {
    /// The file could not be read.
    Io(std::io::Error),
    /// The file is not valid TOML for this schema.
    Parse(toml::de::Error),
    DuplicateDeviceId(String),
    InvalidPort(u16),
    /// Device id, signal group name, and the offending (trimmed) address.
    InvalidAddressFormat(String, String, String),
    /// Device id, signal group name, and the address number.
    AddressOutOfRange(String, String, u32),
    /// Device id and the signal group's own message.
    SignalGroupValidation(String, String),
    StreamConfigValidation(String),
}

#[verifier::external_type_specification]
#[verifier::external_body]
pub struct ExIoError(std::io::Error);

#[verifier::external_type_specification]
#[verifier::external_body]
pub struct ExTomlDeError(toml::de::Error);

/// A configuration error, with its strings as character sequences.
pub enum ConfigIssue {
    Io,
    Parse,
    DuplicateDeviceId(Seq<char>),
    InvalidPort(u16),
    InvalidAddressFormat(Seq<char>, Seq<char>, Seq<char>),
    AddressOutOfRange(Seq<char>, Seq<char>, u32),
    SignalGroupValidation(Seq<char>, Seq<char>),
    StreamConfigValidation(Seq<char>),
}

impl ConfigError {
    pub open spec fn issue(&self) -> ConfigIssue {
        match self {
            ConfigError::Io(_) => ConfigIssue::Io,
            ConfigError::Parse(_) => ConfigIssue::Parse,
            ConfigError::DuplicateDeviceId(d) => ConfigIssue::DuplicateDeviceId(d@),
            ConfigError::InvalidPort(p) => ConfigIssue::InvalidPort(*p),
            ConfigError::InvalidAddressFormat(d, g, a) => ConfigIssue::InvalidAddressFormat(
                d@,
                g@,
                a@,
            ),
            ConfigError::AddressOutOfRange(d, g, n) => ConfigIssue::AddressOutOfRange(d@, g@, *n),
            ConfigError::SignalGroupValidation(d, m) => ConfigIssue::SignalGroupValidation(d@, m@),
            ConfigError::StreamConfigValidation(m) => ConfigIssue::StreamConfigValidation(m@),
        }
    }
}

/// How validation of (part of) a configuration ends.
pub enum Verdict {
    Valid,
    Invalid(ConfigIssue),
}

/// The lower-case form of an ASCII letter; other characters unchanged.
pub open spec fn ascii_lower(c: char) -> char {
    if 'A' <= c && c <= 'Z' {
        ((c as u32) + 32) as char
    } else {
        c
    }
}

pub open spec fn is_type_prefix(c: char) -> bool {
    let l = ascii_lower(c);
    l == 'h' || l == 'd' || l == 'c' || l == 'i'
}

/// The verdict on a signal group's `register_address` within device `dev`.
pub open spec fn address_verdict(dev: Seq<char>, g: SignalGroup) -> Verdict {
    let t = trim(g.register_address@);
    if encodes_below_two_bytes(t) {
        Verdict::Invalid(ConfigIssue::InvalidAddressFormat(dev, g.name@, t))
    } else if !is_ascii_char(t[0]) || !is_type_prefix(t[0]) {
        Verdict::Invalid(ConfigIssue::InvalidAddressFormat(dev, g.name@, t))
    } else {
        match parse_unsigned(t.drop_first(), u32::MAX as nat) {
            Some(n) => if n > 65535 {
                Verdict::Invalid(ConfigIssue::AddressOutOfRange(dev, g.name@, n as u32))
            } else {
                Verdict::Valid
            },
            None => Verdict::Invalid(ConfigIssue::InvalidAddressFormat(dev, g.name@, t)),
        }
    }
}

/// A signal group address passes the address check exactly when, trimmed,
/// it is one of the type prefixes `h`, `d`, `c`, `i` (either case) followed
/// by decimal digits that denote at most 65535.
pub proof fn lemma_type_prefixed_address_passes(dev: Seq<char>, g: SignalGroup, p: char, digits: Seq<char>)
    requires
        p == 'h' || p == 'd' || p == 'c' || p == 'i' || p == 'H' || p == 'D' || p == 'C' || p == 'I',
        digits.len() > 0,
        all_digits(digits),
        decimal_value(digits) <= 65535,
        trim(g.register_address@) == seq![p] + digits,
    ensures
        address_verdict(dev, g) is Valid,
{
    let t = trim(g.register_address@);
    assert(t.drop_first() =~= digits);
    assert(is_digit(digits[0]));
    assert(unsigned_digits(digits) == digits);
}

/// An address whose trimmed form does not start with one of the type
/// prefixes `h`, `d`, `c`, `i` (either case) is refused as malformed.
pub proof fn lemma_other_prefix_is_refused(dev: Seq<char>, g: SignalGroup)
    requires
        trim(g.register_address@).len() > 0,
        ({
            let p = trim(g.register_address@)[0];
            !(p == 'h' || p == 'd' || p == 'c' || p == 'i' || p == 'H' || p == 'D' || p == 'C'
                || p == 'I')
        }),
    ensures
        address_verdict(dev, g) == Verdict::Invalid(
            ConfigIssue::InvalidAddressFormat(dev, g.name@, trim(g.register_address@)),
        ),
{
    let p = trim(g.register_address@)[0];
    if 'A' <= p && p <= 'Z' {
        assert(ascii_lower(p) as u32 == p as u32 + 32);
    }
}

/// A group with a type-prefixed address up to 65535 and no fields is valid.
pub proof fn lemma_field_free_group_with_type_prefixed_address_is_valid(
    dev: Seq<char>,
    g: SignalGroup,
    p: char,
    digits: Seq<char>,
)
    requires
        p == 'h' || p == 'd' || p == 'c' || p == 'i' || p == 'H' || p == 'D' || p == 'C' || p == 'I',
        digits.len() > 0,
        all_digits(digits),
        decimal_value(digits) <= 65535,
        trim(g.register_address@) == seq![p] + digits,
        g.fields@.len() == 0,
    ensures
        group_verdict(dev, g) is Valid,
{
    lemma_type_prefixed_address_passes(dev, g, p, digits);
}

/// The verdict on one signal group: its address, then its fields.
pub open spec fn group_verdict(dev: Seq<char>, g: SignalGroup) -> Verdict {
    match address_verdict(dev, g) {
        Verdict::Valid => match first_field_issue(g, 0) {
            Some(m) => Verdict::Invalid(ConfigIssue::SignalGroupValidation(dev, m)),
            None => Verdict::Valid,
        },
        other => other,
    }
}

/// The first failing verdict among the groups `gs[k..]` of device `dev`.
pub open spec fn groups_verdict(dev: Seq<char>, gs: Seq<SignalGroup>, k: int) -> Verdict
    decreases gs.len() - k,
{
    if 0 <= k < gs.len() {
        match group_verdict(dev, gs[k]) {
            Verdict::Valid => groups_verdict(dev, gs, k + 1),
            other => other,
        }
    } else {
        Verdict::Valid
    }
}

/// The verdict on device `i`: its id must differ from those of earlier devices,
/// then its groups are checked in order.
pub open spec fn device_verdict(ds: Seq<Device>, i: int) -> Verdict {
    if exists|j: int| 0 <= j < i && #[trigger] ds[j].id@ == ds[i].id@ {
        Verdict::Invalid(ConfigIssue::DuplicateDeviceId(ds[i].id@))
    } else {
        groups_verdict(ds[i].id@, ds[i].signal_groups@, 0)
    }
}

pub open spec fn devices_verdict(ds: Seq<Device>, i: int) -> Verdict
    decreases ds.len() - i,
{
    if 0 <= i < ds.len() {
        match device_verdict(ds, i) {
            Verdict::Valid => devices_verdict(ds, i + 1),
            other => other,
        }
    } else {
        Verdict::Valid
    }
}

/// The first stream from index `i` on whose interval is out of range.
pub open spec fn streams_verdict(ss: Seq<StreamConfig>, i: int) -> Verdict
    decreases ss.len() - i,
{
    if 0 <= i < ss.len() {
        if ss[i].interval_in_range() {
            streams_verdict(ss, i + 1)
        } else {
            Verdict::Invalid(
                ConfigIssue::StreamConfigValidation(stream_interval_message(ss[i].poll_interval_ms)),
            )
        }
    } else {
        Verdict::Valid
    }
}

/// The outcome of validating `c`: devices in order, then streams.
pub open spec fn config_verdict(c: Config) -> Verdict {
    match devices_verdict(c.devices@, 0) {
        Verdict::Valid => streams_verdict(c.streams@, 0),
        other => other,
    }
}

/// A configuration of one device whose one signal group has no fields and
/// an address made of a type prefix (`h`, `d`, `c`, `i`, either case) and a
/// number up to 65535, with no streams, is valid.
pub proof fn lemma_single_group_config_with_type_prefixed_address_is_valid(
    c: Config,
    p: char,
    digits: Seq<char>,
)
    requires
        c.devices@.len() == 1,
        c.devices@[0].signal_groups@.len() == 1,
        c.devices@[0].signal_groups@[0].fields@.len() == 0,
        c.streams@.len() == 0,
        p == 'h' || p == 'd' || p == 'c' || p == 'i' || p == 'H' || p == 'D' || p == 'C' || p == 'I',
        digits.len() > 0,
        all_digits(digits),
        decimal_value(digits) <= 65535,
        trim(c.devices@[0].signal_groups@[0].register_address@) == seq![p] + digits,
    ensures
        config_verdict(c) is Valid,
{
    let ds = c.devices@;
    let d = ds[0];
    let gs = d.signal_groups@;
    lemma_field_free_group_with_type_prefixed_address_is_valid(d.id@, gs[0], p, digits);
    assert(groups_verdict(d.id@, gs, 1) is Valid);
    assert(groups_verdict(d.id@, gs, 0) is Valid);
    assert(device_verdict(ds, 0) is Valid);
    assert(devices_verdict(ds, 1) is Valid);
    assert(devices_verdict(ds, 0) is Valid);
    assert(streams_verdict(c.streams@, 0) is Valid);
}

/// How a check of (part of) a configuration ends, as computed.
enum Checked {
    Valid,
    Invalid(ConfigError),
}

spec fn checked_matches(c: Checked, v: Verdict) -> bool {
    match c {
        Checked::Valid => v is Valid,
        Checked::Invalid(e) => v == Verdict::Invalid(e.issue()),
    }
}

/// Checks one signal group's address and fields.
fn check_group(dev: &String, g: &SignalGroup) -> (r: Checked)
    ensures
        checked_matches(r, group_verdict(dev@, *g)),
{
    let t = trimmed_chars(g.register_address.as_str());
    if t.len() == 0 || (t.len() == 1 && (t[0] as u32) < 128) {
        return Checked::Invalid(
            ConfigError::InvalidAddressFormat(dev.clone(), g.name.clone(), string_from_chars(&t)),
        );
    }
    let c = t[0];
    if (c as u32) >= 128 {
        return Checked::Invalid(
            ConfigError::InvalidAddressFormat(dev.clone(), g.name.clone(), string_from_chars(&t)),
        );
    }
    let lower = if 'A' <= c && c <= 'Z' {
        ((c as u8) + 32) as char
    } else {
        c
    };
    if !(lower == 'h' || lower == 'd' || lower == 'c' || lower == 'i') {
        return Checked::Invalid(
            ConfigError::InvalidAddressFormat(dev.clone(), g.name.clone(), string_from_chars(&t)),
        );
    }
    assert(t@.subrange(1, t@.len() as int) =~= t@.drop_first());
    match parse_unsigned_range(&t, 1, t.len(), u32::MAX as u64) {
        Some(num) => {
            if num > 65535 {
                return Checked::Invalid(
                    ConfigError::AddressOutOfRange(dev.clone(), g.name.clone(), num as u32),
                );
            }
        },
        None => {
            return Checked::Invalid(
                ConfigError::InvalidAddressFormat(
                    dev.clone(),
                    g.name.clone(),
                    string_from_chars(&t),
                ),
            );
        },
    }
    match g.validate() {
        Ok(_) => Checked::Valid,
        Err(m) => Checked::Invalid(ConfigError::SignalGroupValidation(dev.clone(), m)),
    }
}

impl Config {
    fn check(&self) -> (r: Checked)
        ensures
            checked_matches(r, config_verdict(*self)),
    {
        let ghost ds = self.devices@;
        let n = self.devices.len();
        let mut i: usize = 0;
        while i < n
            invariant
                i <= n == self.devices.len(),
                ds == self.devices@,
                devices_verdict(ds, 0) == devices_verdict(ds, i as int),
            decreases n - i,
        {
            let device = &self.devices[i];
            let mut j: usize = 0;
            let mut dup = false;
            while j < i
                invariant
                    j <= i < n == self.devices.len(),
                    ds == self.devices@,
                    device == ds[i as int],
                    dup == exists|k: int| 0 <= k < j && #[trigger] ds[k].id@ == device.id@,
                decreases i - j,
            {
                if self.devices[j].id == device.id {
                    dup = true;
                }
                j = j + 1;
            }
            if dup {
                return Checked::Invalid(ConfigError::DuplicateDeviceId(device.id.clone()));
            }
            let ghost gs = device.signal_groups@;
            let m = device.signal_groups.len();
            let mut k: usize = 0;
            while k < m
                invariant
                    k <= m == device.signal_groups.len(),
                    i < n == self.devices.len(),
                    ds == self.devices@,
                    device == ds[i as int],
                    gs == device.signal_groups@,
                    devices_verdict(ds, 0) == devices_verdict(ds, i as int),
                    device_verdict(ds, i as int) == groups_verdict(device.id@, gs, k as int),
                decreases m - k,
            {
                let g = &device.signal_groups[k];
                match check_group(&device.id, g) {
                    Checked::Valid => {},
                    other => {
                        return other;
                    },
                }
                k = k + 1;
            }
            i = i + 1;
        }
        let ghost ss = self.streams@;
        let s = self.streams.len();
        let mut q: usize = 0;
        while q < s
            invariant
                q <= s == self.streams.len(),
                ss == self.streams@,
                devices_verdict(ds, 0) is Valid,
                ds == self.devices@,
                streams_verdict(ss, 0) == streams_verdict(ss, q as int),
            decreases s - q,
        {
            match self.streams[q].validate() {
                Ok(_) => {},
                Err(m) => {
                    return Checked::Invalid(ConfigError::StreamConfigValidation(m));
                },
            }
            q = q + 1;
        }
        Checked::Valid
    }

    /// Checks that device ids are unique, that every signal group address is
    /// a type prefix (`h`, `d`, `c`, `i`, any case) followed by a number up
    /// to 65535, that every signal group is valid, and that every stream's
    /// interval lies within 5..=5000 ms. Reports the first problem found.
    pub fn validate(&self) -> (r: Result<(), ConfigError>)
        ensures
            match r {
                Ok(_) => config_verdict(*self) is Valid,
                Err(e) => config_verdict(*self) == Verdict::Invalid(e.issue()),
            },
    {
        match self.check() {
            Checked::Valid => Ok(()),
            Checked::Invalid(e) => Err(e),
        }
    }

    /// Whether `other` differs from this configuration's streams: another
    /// length, or some position whose stream differs.
    pub fn streams_differ(&self, other: &[StreamConfig]) -> (r: bool)
        ensures
            r == (self.streams@.len() != other@.len() || exists|i: int|
                0 <= i < self.streams@.len() && !same_stream(
                    #[trigger] self.streams@[i],
                    other@[i],
                )),
    {
        if self.streams.len() != other.len() {
            return true;
        }
        let mut i: usize = 0;
        while i < self.streams.len()
            invariant
                i <= self.streams.len() == other@.len(),
                forall|k: int| 0 <= k < i ==> same_stream(#[trigger] self.streams@[k], other@[k]),
            decreases self.streams.len() - i,
        {
            if !self.streams[i].same_as(&other[i]) {
                return true;
            }
            i = i + 1;
        }
        false
    }
}

} // verus!
