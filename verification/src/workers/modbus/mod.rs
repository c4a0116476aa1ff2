//! Talking Modbus to one device: operations, register addresses, signal
//! group encoding, connection state and the handling of control requests.

pub mod client;
pub mod handler;
pub mod operations;
pub mod parsing;
pub mod state;
pub mod types;

pub use client::{ModbusConnectionPool, ModbusOp};
pub use handler::{operation_to_modbus_op, ControlParams, ControlStep};
pub use operations::{parse_register_address, RegisterType};
pub use parsing::{encode_fields_to_registers, parse_signal_group_fields, ParsedField};
pub use state::ModbusWorkerState;
pub use types::{Backoff, ConnectionState, OperationQueue, TimeoutHandler};
