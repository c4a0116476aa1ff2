//! Verified core of a middleware that turns JSON-RPC requests into Modbus TCP
//! operations for PLCs and robot arms.

pub mod api;
pub mod config;
pub mod correlation;
pub mod data_cache;
pub mod device_states;
pub mod data_conversion;
pub mod events;
pub mod hub_protection;
pub mod messages;
pub mod mock_server;
pub mod profiles;
pub mod text;
pub mod time;
pub mod workers;

pub use events::{
    DeviceEvent, DeviceEventType, DeviceStatus, LatencySample, ModbusLogEntry,
    DEFAULT_CONNECT_TIMEOUT_MS, DEFAULT_HEARTBEAT_TIMEOUT_MS, DEFAULT_HUB_SEND_TIMEOUT_MS,
    DEFAULT_OPERATION_TIMEOUT_MS, MAX_OPERATION_TIMEOUT_MS, MAX_PENDING_HEARTBEATS,
    MAX_PENDING_RESPONSES,
};

pub use correlation::next_correlation_id;
pub use messages::{Operation, SystemStatusResponse};
pub use workers::modbus::{
    parse_register_address, parse_signal_group_fields, Backoff, ConnectionState, ModbusOp,
    OperationQueue, ParsedField, RegisterType, TimeoutHandler,
};
pub use workers::sse::{SseConnection, SseConnectionId};

use vstd::prelude::*;

verus! {

} // verus!
