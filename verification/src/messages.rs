//! What the workers say to one another: the operations a device control
//! request asks for, and the answer to a system status query.

use vstd::prelude::*;

verus! {

/// The operation of a device control request.
#[derive(Debug, Clone, Copy, PartialEq, Eq, Structural)]
pub enum Operation {
    /// Read every register of a signal group.
    ReadSignalGroup,
    /// Write the registers of a signal group.
    WriteSignalGroup,
    /// Report the connection state of the device.
    GetStatus,
}

/// The answer to a system status query.
#[derive(Debug, Clone, Copy, PartialEq, Eq, Structural)]
pub struct SystemStatusResponse {
    pub devices_count: u32,
    pub system_healthy: bool,
    pub uptime_secs: u64,
}

} // verus!
