//! What the workers record about the devices: their status, the Modbus
//! transactions, state changes and latency samples, and the limits of the
//! channels and timeouts that carry them.

use std::time::Instant;
use vstd::prelude::*;

verus! {

#[verifier::external_type_specification]
#[verifier::external_body]
pub struct ExInstant(Instant);

/// Most heartbeat answers waiting on one channel.
pub const MAX_PENDING_HEARTBEATS: usize = 50;

/// Most RPC answers waiting on one channel.
pub const MAX_PENDING_RESPONSES: usize = 1000;

/// Default TCP connect timeout for Modbus connections, in milliseconds.
pub const DEFAULT_CONNECT_TIMEOUT_MS: u16 = 200;

/// Default timeout of a Modbus operation, in milliseconds.
pub const DEFAULT_OPERATION_TIMEOUT_MS: u16 = 1000;

/// Largest timeout of a Modbus operation, in milliseconds.
pub const MAX_OPERATION_TIMEOUT_MS: u16 = 30000;

/// Default timeout of a send to the hub, in milliseconds.
pub const DEFAULT_HUB_SEND_TIMEOUT_MS: u16 = 500;

/// Default timeout of a device health check, in milliseconds.
pub const DEFAULT_HEARTBEAT_TIMEOUT_MS: u16 = 1000;

/// The connection status of a device and its communication counters.
#[derive(Debug)]
pub struct DeviceStatus {
    pub connected: bool,
    pub last_communication: Instant,
    pub error_count: u32,
    pub reconnect_count: u32,
}

impl DeviceStatus {
    /// A device just registered: not connected, no errors, no reconnects.
    pub fn registered(now: Instant) -> (s: Self)
        ensures
            !s.connected,
            s.last_communication == now,
            s.error_count == 0,
            s.reconnect_count == 0,
    {
        DeviceStatus { connected: false, last_communication: now, error_count: 0, reconnect_count: 0 }
    }

    /// Records the outcome of a health check at `now`; `true` when the
    /// connection state changed.
    pub fn record_check(&mut self, connected: bool, now: Instant) -> (changed: bool)
        ensures
            changed == (old(self).connected != connected),
            final(self).connected == connected,
            final(self).last_communication == now,
            final(self).error_count == old(self).error_count,
            final(self).reconnect_count == old(self).reconnect_count,
    {
        let was_connected = self.connected;
        self.connected = connected;
        self.last_communication = now;
        was_connected != connected
    }
}

/// One Modbus transaction, kept for debugging.
#[derive(Clone, Debug)]
pub struct ModbusLogEntry {
    pub device_id: String,
    pub timestamp_ms: u64,
    pub operation: String,
    pub address: String,
    pub success: bool,
    pub latency_us: u64,
}

/// A change in the state of a device.
#[derive(Clone, Debug)]
pub struct DeviceEvent {
    pub device_id: String,
    pub event_type: DeviceEventType,
    pub timestamp_ms: u64,
    pub details: String,
}

/// The kinds of device state change.
#[derive(Clone, Copy, Debug, PartialEq, Eq, Structural)]
pub enum DeviceEventType {
    Connected,
    Disconnected,
    Reconnecting,
    Error,
    HeartbeatMissed,
}

/// The latency of one exchange with a device.
#[derive(Clone, Debug)]
pub struct LatencySample {
    pub device_id: String,
    pub latency_us: u64,
    pub timestamp_ms: u64,
}

} // verus!
