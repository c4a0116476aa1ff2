//! The logic of the middleware's workers.

pub mod config_loader;
pub mod config_updater;
pub mod data_stream;
pub mod heartbeat;
pub mod http;
pub mod latency_monitor;
pub mod modbus;
pub mod rpc;
pub mod sse;
