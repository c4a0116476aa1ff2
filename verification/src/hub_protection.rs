//! Limits of the pool of threads that send messages to the hub, so that a
//! full hub cannot block a worker for long.

use crate::events::DEFAULT_HUB_SEND_TIMEOUT_MS;
use crate::time::{duration_of_millis, millis};
use std::time::Duration;
use vstd::prelude::*;

verus! {

/// Threads in the hub send pool.
pub const HUB_SEND_POOL_SIZE: usize = 4;

/// Sends that may wait in the pool's queue.
pub const HUB_SEND_QUEUE_CAPACITY: usize = 128;

/// How long a send to the hub may take before it is given up.
pub fn default_hub_send_timeout() -> (d: Duration)
    ensures
        d == duration_of_millis(DEFAULT_HUB_SEND_TIMEOUT_MS as u64),
{
    millis(DEFAULT_HUB_SEND_TIMEOUT_MS as u64)
}

} // verus!
