//! The JSON-RPC side: reading a request off a connection and answering it.

pub mod cleanup;
pub mod connection;
pub mod handler;
