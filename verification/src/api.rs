//! The bodies of the device requests of the HTTP interface.

use vstd::prelude::*;

verus! {

/// A request to set one register.
#[derive(Debug, Clone)]
pub struct SetRegisterRequest {
    pub address: String,
    pub value: u16,
}

/// A batch of reads and writes on one device.
#[derive(Debug, Clone, Default)]
pub struct BatchOperationRequest {
    pub read: Vec<String>,
    pub write: Vec<WriteOperation>,
}

/// One write of a batch.
#[derive(Debug, Clone)]
pub struct WriteOperation {
    pub address: String,
    pub value: u16,
}

/// A request to move a robot to a named position.
#[derive(Debug, Clone)]
pub struct MoveRequest {
    pub position: String,
    pub speed: Option<u8>,
}

/// The speed of a move when the request names none.
pub const DEFAULT_MOVE_SPEED: u8 = 100;

impl MoveRequest {
    /// The requested speed, or the default.
    pub fn speed_or_default(&self) -> (s: u8)
        ensures
            s == match self.speed {
                Some(v) => v,
                None => DEFAULT_MOVE_SPEED,
            },
    {
        match self.speed {
            Some(v) => v,
            None => DEFAULT_MOVE_SPEED,
        }
    }
}

impl BatchOperationRequest {
    /// Whether the batch writes: it does as soon as it has one write.
    pub fn writes(&self) -> (b: bool)
        ensures
            b == (self.write@.len() > 0),
    {
        self.write.len() > 0
    }
}

} // verus!
