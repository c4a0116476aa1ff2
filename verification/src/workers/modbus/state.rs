//! The state a Modbus worker keeps for its device: the configuration, the
//! connection pool and connection state, the adaptive timeout and backoff,
//! and the limiter of concurrent operations.

use crate::config::Device;
use crate::events::{DeviceEvent, DeviceEventType, LatencySample};
use crate::text::{decimal_chars, push_chars, push_decimal, push_str, string_from_chars, chars_of};
use crate::workers::modbus::client::ModbusConnectionPool;
use crate::workers::modbus::types::{
    Backoff, ConnectionState, OperationQueue, TimeoutHandler, BASE_TIMEOUT_MS, MAX_TIMEOUT_MS,
};
use crate::time::duration_of_millis;
use std::time::Duration;
use vstd::prelude::*;

verus! {

/// How long an idle pooled connection stays reusable, in milliseconds.
pub const POOL_HEALTH_CHECK_INTERVAL_MS: u64 = 30000;

/// Most connections a device's pool keeps.
pub const MAX_POOL_CONNECTIONS: usize = 5;

/// The name of a connection state, as it is printed.
pub open spec fn state_name(s: ConnectionState) -> Seq<char> {
    match s {
        ConnectionState::Disconnected => "Disconnected"@,
        ConnectionState::Connecting => "Connecting"@,
        ConnectionState::Connected => "Connected"@,
    }
}

/// The event kind that a move to state `s` records.
pub open spec fn state_event_type(s: ConnectionState) -> DeviceEventType {
    match s {
        ConnectionState::Connected => DeviceEventType::Connected,
        ConnectionState::Disconnected => DeviceEventType::Disconnected,
        ConnectionState::Connecting => DeviceEventType::Reconnecting,
    }
}

/// Whether `e` records that device `id` moved to state `s` at `now`.
pub open spec fn is_state_event(e: DeviceEvent, id: Seq<char>, s: ConnectionState, now: u64) -> bool {
    &&& e.device_id@ == id
    &&& e.event_type == state_event_type(s)
    &&& e.timestamp_ms == now
    &&& e.details@ == "Connection state: "@ + state_name(s)
}

/// The address of a device's endpoint: `address:port`.
pub open spec fn endpoint_text(d: Device) -> Seq<char> {
    d.address@ + ":"@ + decimal_chars(d.port as nat)
}

/// The size of a device's pool: its concurrent operations, at most five.
pub open spec fn pool_size_of(d: Device) -> usize {
    if (d.max_concurrent_ops as usize) < MAX_POOL_CONNECTIONS {
        d.max_concurrent_ops as usize
    } else {
        MAX_POOL_CONNECTIONS
    }
}

/// The state of one device's Modbus worker.
pub struct ModbusWorkerState<C> {
    device: Device,
    connection_pool: Option<ModbusConnectionPool<C>>,
    connection_state: ConnectionState,
    last_communication_ms: Option<u64>,
    backoff: Backoff,
    timeout_handler: TimeoutHandler,
    operation_queue: OperationQueue<()>,
}

impl<C> ModbusWorkerState<C> {
    pub closed spec fn dev(self) -> Device {
        self.device
    }

    pub closed spec fn state(self) -> ConnectionState {
        self.connection_state
    }

    pub closed spec fn has_pool(self) -> bool {
        self.connection_pool is Some
    }

    /// The pool, when there is one.
    pub closed spec fn pool(self) -> Option<ModbusConnectionPool<C>> {
        self.connection_pool
    }

    /// When the device last answered, in milliseconds since the epoch.
    pub closed spec fn last_comm(self) -> Option<u64> {
        self.last_communication_ms
    }

    /// The current operation timeout, in milliseconds.
    pub closed spec fn timeout_ms(self) -> u64 {
        self.timeout_handler.current_ms()
    }

    /// Reconnection attempts since the last reset of the backoff.
    pub closed spec fn backoff_attempts(self) -> u32 {
        self.backoff.attempts()
    }

    /// The operations waiting for a slot.
    pub closed spec fn queued(self) -> nat {
        self.operation_queue.pending().len()
    }

    /// The operations holding a slot.
    pub closed spec fn running(self) -> usize {
        self.operation_queue.in_flight()
    }

    /// The most operations that may hold a slot at once.
    pub closed spec fn slots(self) -> usize {
        self.operation_queue.limit()
    }

    /// A worker for `device`, disconnected, with no pool, the base timeout
    /// and as many operation slots as the device allows concurrent
    /// operations.
    pub fn new(device: Device) -> (s: Self)
        ensures
            s.dev() == device,
            s.state() == ConnectionState::Disconnected,
            !s.has_pool(),
            s.last_comm() is None,
            s.timeout_ms() == BASE_TIMEOUT_MS,
            s.backoff_attempts() == 0,
            s.queued() == 0,
            s.running() == 0,
            s.slots() == device.max_concurrent_ops as usize,
    {
        let max_concurrent_ops = device.max_concurrent_ops as usize;
        ModbusWorkerState {
            device,
            connection_pool: None,
            connection_state: ConnectionState::Disconnected,
            last_communication_ms: None,
            backoff: Backoff::new(),
            timeout_handler: TimeoutHandler::new(),
            operation_queue: OperationQueue::new(max_concurrent_ops),
        }
    }

    pub fn device(&self) -> (d: &Device)
        ensures
            *d == self.dev(),
    {
        &self.device
    }

    pub fn connection_state(&self) -> (s: ConnectionState)
        ensures
            s == self.state(),
    {
        self.connection_state
    }

    pub fn has_connection_pool(&self) -> (b: bool)
        ensures
            b == self.has_pool(),
    {
        self.connection_pool.is_some()
    }

    /// The connection pool, when there is one, for running operations.
    pub fn pool_mut(&mut self) -> (r: Option<&mut ModbusConnectionPool<C>>)
        ensures
            r is Some == old(self).has_pool(),
    {
        self.connection_pool.as_mut()
    }

    /// Takes the signal groups of `new_device`; everything else, the
    /// connection included, stays as it was.
    pub fn update_device_config(&mut self, new_device: Device)
        ensures
            final(self).dev() == (Device { signal_groups: new_device.signal_groups, ..old(self).dev() }),
            final(self).state() == old(self).state(),
            final(self).pool() == old(self).pool(),
            final(self).last_comm() == old(self).last_comm(),
            final(self).timeout_ms() == old(self).timeout_ms(),
            final(self).backoff_attempts() == old(self).backoff_attempts(),
            final(self).queued() == old(self).queued(),
            final(self).running() == old(self).running(),
            final(self).slots() == old(self).slots(),
    {
        self.device.signal_groups = new_device.signal_groups;
    }

    /// Moves to `new_state`; when it differs from the current state, the
    /// change is returned as an event stamped `now_ms`.
    pub fn update_connection_state(&mut self, new_state: ConnectionState, now_ms: u64) -> (e: Option<
        DeviceEvent,
    >)
        ensures
            final(self).state() == new_state,
            final(self).dev() == old(self).dev(),
            final(self).pool() == old(self).pool(),
            final(self).last_comm() == old(self).last_comm(),
            final(self).timeout_ms() == old(self).timeout_ms(),
            final(self).backoff_attempts() == old(self).backoff_attempts(),
            final(self).queued() == old(self).queued(),
            final(self).running() == old(self).running(),
            final(self).slots() == old(self).slots(),
            match e {
                Some(ev) => old(self).state() != new_state && is_state_event(
                    ev,
                    old(self).dev().id@,
                    new_state,
                    now_ms,
                ),
                None => old(self).state() == new_state,
            },
    {
        if self.connection_state == new_state {
            return None;
        }
        let event_type = match new_state {
            ConnectionState::Connected => DeviceEventType::Connected,
            ConnectionState::Disconnected => DeviceEventType::Disconnected,
            ConnectionState::Connecting => DeviceEventType::Reconnecting,
        };
        let mut details: Vec<char> = Vec::new();
        push_str(&mut details, "Connection state: ");
        match new_state {
            ConnectionState::Disconnected => push_str(&mut details, "Disconnected"),
            ConnectionState::Connecting => push_str(&mut details, "Connecting"),
            ConnectionState::Connected => push_str(&mut details, "Connected"),
        }
        let event = DeviceEvent {
            device_id: self.device.id.clone(),
            event_type,
            timestamp_ms: now_ms,
            details: string_from_chars(&details),
        };
        self.connection_state = new_state;
        Some(event)
    }

    /// Notes that the device answered at `now_ms` after `latency_us`, and
    /// returns the latency sample.
    pub fn record_communication(&mut self, latency_us: u64, now_ms: u64) -> (s: LatencySample)
        ensures
            final(self).last_comm() == Some(now_ms),
            s.device_id@ == old(self).dev().id@,
            s.latency_us == latency_us,
            s.timestamp_ms == now_ms,
            final(self).dev() == old(self).dev(),
            final(self).state() == old(self).state(),
            final(self).pool() == old(self).pool(),
            final(self).timeout_ms() == old(self).timeout_ms(),
            final(self).backoff_attempts() == old(self).backoff_attempts(),
            final(self).queued() == old(self).queued(),
            final(self).running() == old(self).running(),
            final(self).slots() == old(self).slots(),
    {
        self.last_communication_ms = Some(now_ms);
        LatencySample { device_id: self.device.id.clone(), latency_us, timestamp_ms: now_ms }
    }

    /// The endpoint of the device, `address:port`.
    pub fn endpoint(&self) -> (e: String)
        ensures
            e@ == endpoint_text(self.dev()),
    {
        let mut out = chars_of(self.device.address.as_str());
        push_str(&mut out, ":");
        push_decimal(&mut out, self.device.port as u64);
        string_from_chars(&out)
    }

    /// The size of the pool for this device.
    pub fn pool_size(&self) -> (n: usize)
        ensures
            n == pool_size_of(self.dev()),
    {
        let ops = self.device.max_concurrent_ops as usize;
        if ops < MAX_POOL_CONNECTIONS {
            ops
        } else {
            MAX_POOL_CONNECTIONS
        }
    }

    /// Where and how long to probe before a pool can be created: `None` when
    /// the device already has a pool; otherwise its endpoint
    /// (`address:port`) and the current operation timeout.
    pub fn connect_target(&self) -> (r: Option<(String, Duration)>)
        ensures
            match r {
                None => self.has_pool(),
                Some((e, d)) => {
                    &&& !self.has_pool()
                    &&& e@ == endpoint_text(self.dev())
                    &&& d == duration_of_millis(self.timeout_ms())
                },
            },
    {
        if self.connection_pool.is_some() {
            None
        } else {
            Some((self.endpoint(), self.timeout_handler.timeout()))
        }
    }

    /// Makes sure the device has a connection pool, given whether the
    /// endpoint answered the probe of [`connect_target`] (`reachable` is
    /// not read when a pool exists). Without a pool, the worker moves to
    /// `Connecting`; when the endpoint answered, a pool of [`pool_size_of`]
    /// connections is created; when it did not, the timeout doubles (up to
    /// its maximum), the worker moves to `Disconnected` and `false` is
    /// returned. With a pool, the worker moves to `Connected`, the timeout
    /// returns to its base and the backoff is reset. The state changes are
    /// returned as events stamped `now_ms`.
    pub fn ensure_connected(&mut self, now_ms: u64, reachable: bool) -> (r: (bool, Vec<DeviceEvent>))
        ensures
            final(self).dev() == old(self).dev(),
            final(self).last_comm() == old(self).last_comm(),
            final(self).queued() == old(self).queued(),
            final(self).running() == old(self).running(),
            final(self).slots() == old(self).slots(),
            old(self).has_pool() ==> {
                &&& r.0
                &&& final(self).pool() == old(self).pool()
            },
            !old(self).has_pool() ==> r.0 == reachable,
            r.0 ==> {
                &&& final(self).has_pool()
                &&& final(self).state() == ConnectionState::Connected
                &&& final(self).timeout_ms() == BASE_TIMEOUT_MS
                &&& final(self).backoff_attempts() == 0
            },
            !old(self).has_pool() && r.0 ==> ({
                let p = final(self).pool()->0;
                &&& p.idle().len() == 0
                &&& p.created() == 0
                &&& p.capacity() == pool_size_of(old(self).dev())
                &&& p.interval_ms() == POOL_HEALTH_CHECK_INTERVAL_MS
                &&& p.endpoint_view() == endpoint_text(old(self).dev())
                &&& p.unit() == old(self).dev().unit_id
                &&& p.next_transaction() == 1
            }),
            !r.0 ==> {
                &&& !old(self).has_pool()
                &&& !final(self).has_pool()
                &&& final(self).state() == ConnectionState::Disconnected
                &&& final(self).timeout_ms() == if old(self).timeout_ms() * 2 < MAX_TIMEOUT_MS {
                    old(self).timeout_ms() * 2
                } else {
                    MAX_TIMEOUT_MS as int
                }
                &&& final(self).backoff_attempts() == old(self).backoff_attempts()
            },
            ({
                let id = old(self).dev().id@;
                let before = if old(self).has_pool() {
                    old(self).state()
                } else {
                    ConnectionState::Connecting
                };
                let opening: Seq<DeviceEvent> = r.1@.take(
                    if !old(self).has_pool() && old(self).state() != ConnectionState::Connecting {
                        1
                    } else {
                        0
                    },
                );
                let closing = r.1@.skip(opening.len() as int);
                &&& opening.len() == 1 ==> is_state_event(
                    opening[0],
                    id,
                    ConnectionState::Connecting,
                    now_ms,
                )
                &&& closing.len() <= 1
                &&& closing.len() == 1 <==> before != final(self).state()
                &&& closing.len() == 1 ==> is_state_event(closing[0], id, final(self).state(), now_ms)
                &&& r.1@.len() == opening.len() + closing.len()
            }),
    {
        let mut events: Vec<DeviceEvent> = Vec::new();
        if self.connection_pool.is_none() {
            if let Some(e) = self.update_connection_state(ConnectionState::Connecting, now_ms) {
                events.push(e);
            }
            let ghost opened = events@;
            let endpoint = self.endpoint();
            if !reachable {
                self.timeout_handler.on_timeout();
                if let Some(e) = self.update_connection_state(ConnectionState::Disconnected, now_ms) {
                    events.push(e);
                }
                assert(events@.take(opened.len() as int) =~= opened);
                return (false, events);
            }
            let size = self.pool_size();
            let pool = ModbusConnectionPool::new(
                endpoint,
                self.device.unit_id,
                size,
                POOL_HEALTH_CHECK_INTERVAL_MS,
            );
            self.connection_pool = Some(pool);
        }
        let ghost opened = events@;
        if let Some(e) = self.update_connection_state(ConnectionState::Connected, now_ms) {
            events.push(e);
        }
        assert(events@.take(opened.len() as int) =~= opened);
        self.timeout_handler.on_success();
        self.backoff.reset();
        (true, events)
    }

    /// Asks for an operation slot: the request is queued and takes a slot
    /// when fewer operations than the limit hold one. A request that gets no
    /// slot stays queued.
    pub fn try_acquire_operation(&mut self) -> (b: bool)
        ensures
            b == (old(self).running() < old(self).slots()),
            final(self).running() == old(self).running() + if b {
                1int
            } else {
                0
            },
            final(self).queued() == old(self).queued() + 1 - if b {
                1int
            } else {
                0
            },
            final(self).slots() == old(self).slots(),
            final(self).running() <= final(self).slots(),
            final(self).dev() == old(self).dev(),
            final(self).state() == old(self).state(),
            final(self).pool() == old(self).pool(),
            final(self).last_comm() == old(self).last_comm(),
            final(self).timeout_ms() == old(self).timeout_ms(),
            final(self).backoff_attempts() == old(self).backoff_attempts(),
    {
        self.operation_queue.push(());
        self.operation_queue.pop_if_ready().is_some()
    }

    /// Gives an operation slot back; nothing happens when none is held.
    pub fn complete_operation(&mut self)
        ensures
            final(self).running() == if old(self).running() > 0 {
                old(self).running() - 1
            } else {
                0
            },
            final(self).queued() == old(self).queued(),
            final(self).slots() == old(self).slots(),
            final(self).dev() == old(self).dev(),
            final(self).state() == old(self).state(),
            final(self).pool() == old(self).pool(),
            final(self).last_comm() == old(self).last_comm(),
            final(self).timeout_ms() == old(self).timeout_ms(),
            final(self).backoff_attempts() == old(self).backoff_attempts(),
    {
        self.operation_queue.complete();
    }
}

} // verus!
