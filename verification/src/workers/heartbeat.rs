//! Device health checks: which device is checked next, how long to wait
//! between checks, and what a check records.

use crate::config::Device;
use crate::events::{DeviceEvent, DeviceEventType, LatencySample};
use crate::text::{push_str, string_from_chars};
use crate::time::{duration_of_millis, millis};
use std::time::Duration;
use vstd::prelude::*;

verus! {

/// Interval between health checks when no device sets one, in seconds.
pub const DEFAULT_HEARTBEAT_INTERVAL_SEC: u32 = 30;

/// How long a health check waits for its answer, in seconds.
pub const HEARTBEAT_TIMEOUT_SEC: u32 = 5;

/// Shortest wait between two health checks, in milliseconds.
pub const MIN_CHECK_INTERVAL_MS: u64 = 100;

/// The smallest health-check interval of `devices`, or the default when
/// there are none.
pub open spec fn min_interval(devices: Seq<Device>) -> u32
    decreases devices.len(),
{
    if devices.len() == 0 {
        DEFAULT_HEARTBEAT_INTERVAL_SEC
    } else if devices.len() == 1 {
        devices[0].heartbeat_interval_sec
    } else {
        let rest = min_interval(devices.drop_last());
        let last = devices.last().heartbeat_interval_sec;
        if last < rest {
            last
        } else {
            rest
        }
    }
}

/// The index checked after `i` among `count` devices.
pub open spec fn following_index(i: usize, count: usize) -> usize {
    let next: int = if i < usize::MAX {
        i + 1
    } else {
        usize::MAX as int
    };
    (next % (count as int)) as usize
}

/// The index checked at the `k`-th check, starting from index 0.
pub open spec fn visited(k: nat, count: usize) -> usize
    decreases k,
{
    if k == 0 {
        0
    } else {
        following_index(visited((k - 1) as nat, count), count)
    }
}

/// The wait between two checks when `count` devices share `interval_sec`:
/// the interval divided among them in whole seconds, at least the minimum.
pub open spec fn check_wait_ms(interval_sec: u32, count: usize) -> u64 {
    let share = ((interval_sec as int) / (count as int)) * 1000;
    if share > MIN_CHECK_INTERVAL_MS {
        share as u64
    } else {
        MIN_CHECK_INTERVAL_MS
    }
}

/// Where the health checks stand: the device checked next and the timings.
#[derive(Debug, Clone, Copy)]
pub struct HeartbeatSchedule {
    current_device_index: usize,
    heartbeat_interval_sec: u32,
    heartbeat_timeout_sec: u32,
}

impl HeartbeatSchedule {
    pub closed spec fn index(self) -> usize {
        self.current_device_index
    }

    pub closed spec fn interval(self) -> u32 {
        self.heartbeat_interval_sec
    }

    pub closed spec fn timeout(self) -> u32 {
        self.heartbeat_timeout_sec
    }

    /// Checks start at the first device; the interval is the smallest any
    /// device asks for.
    pub fn new(devices: &[Device]) -> (s: Self)
        ensures
            s.index() == 0,
            s.interval() == min_interval(devices@),
            s.timeout() == HEARTBEAT_TIMEOUT_SEC,
    {
        let mut interval: u32 = DEFAULT_HEARTBEAT_INTERVAL_SEC;
        let mut i: usize = 0;
        while i < devices.len()
            invariant
                i <= devices@.len(),
                interval == min_interval(devices@.take(i as int)),
            decreases devices.len() - i,
        {
            assert(devices@.take(i + 1).drop_last() =~= devices@.take(i as int));
            let v = devices[i].heartbeat_interval_sec;
            if i == 0 || v < interval {
                interval = v;
            }
            i = i + 1;
        }
        assert(devices@.take(i as int) =~= devices@);
        HeartbeatSchedule {
            current_device_index: 0,
            heartbeat_interval_sec: interval,
            heartbeat_timeout_sec: HEARTBEAT_TIMEOUT_SEC,
        }
    }

    pub fn interval_sec(&self) -> (v: u32)
        ensures
            v == self.interval(),
    {
        self.heartbeat_interval_sec
    }

    pub fn timeout_sec(&self) -> (v: u32)
        ensures
            v == self.timeout(),
    {
        self.heartbeat_timeout_sec
    }

    /// The index of the device to check now, among `device_count` devices,
    /// and the move to the one after it.
    pub fn next_device(&mut self, device_count: usize) -> (i: usize)
        requires
            device_count > 0,
        ensures
            i == old(self).index() % device_count,
            final(self).index() == following_index(i, device_count),
            final(self).interval() == old(self).interval(),
            final(self).timeout() == old(self).timeout(),
    {
        let i = self.current_device_index % device_count;
        self.current_device_index = i.saturating_add(1) % device_count;
        i
    }

    /// The wait before the next check, among `device_count` devices.
    pub fn check_interval(&self, device_count: usize) -> (d: Duration)
        requires
            device_count > 0,
        ensures
            d == duration_of_millis(check_wait_ms(self.interval(), device_count)),
    {
        let share_sec = self.heartbeat_interval_sec as u64 / device_count as u64;
        assert(share_sec <= u32::MAX);
        let share_ms = share_sec * 1000;
        let wait = if share_ms > MIN_CHECK_INTERVAL_MS {
            share_ms
        } else {
            MIN_CHECK_INTERVAL_MS
        };
        millis(wait)
    }
}

/// Checks go round the devices in order: starting at the first, the `k`-th
/// check is of device `k % count`.
pub proof fn lemma_round_robin(k: nat, count: usize)
    requires
        count > 0,
    ensures
        visited(k, count) == k % (count as nat),
    decreases k,
{
    if k > 0 {
        lemma_round_robin((k - 1) as nat, count);
        let prev = visited((k - 1) as nat, count);
        assert(prev < count);
        let c = count as int;
        let kk = k as int;
        vstd::arithmetic::div_mod::lemma_add_mod_noop(kk - 1, 1, c);
        if c == 1 {
            assert(kk % c == 0);
            assert(((kk - 1) % c + 1) % c == 0);
        } else {
            vstd::arithmetic::div_mod::lemma_small_mod(1, c as nat);
        }
        assert(((kk - 1) % c + 1) % c == kk % c);
        assert(prev as int == (kk - 1) % c);
        assert(visited(k, count) == following_index(prev, count));
        assert(following_index(prev, count) as int == (prev as int + 1) % c);
        assert(visited(k, count) as int == kk % c);
    } else {
        vstd::arithmetic::div_mod::lemma_small_mod(0, count as nat);
    }
}

/// The event that a health check changed the connection state of a device.
pub fn heartbeat_event(device_id: &String, connected: bool, now_ms: u64) -> (e: DeviceEvent)
    ensures
        e.device_id@ == device_id@,
        e.event_type == if connected {
            DeviceEventType::Connected
        } else {
            DeviceEventType::Disconnected
        },
        e.timestamp_ms == now_ms,
        e.details@ == "Device "@ + (if connected {
            "connected"@
        } else {
            "disconnected"@
        }) + " via heartbeat check"@,
{
    let mut details: Vec<char> = Vec::new();
    push_str(&mut details, "Device ");
    if connected {
        push_str(&mut details, "connected");
    } else {
        push_str(&mut details, "disconnected");
    }
    push_str(&mut details, " via heartbeat check");
    DeviceEvent {
        device_id: device_id.clone(),
        event_type: if connected {
            DeviceEventType::Connected
        } else {
            DeviceEventType::Disconnected
        },
        timestamp_ms: now_ms,
        details: string_from_chars(&details),
    }
}

/// The latency sample a health check records: only for a device that
/// answered, after a measurable delay.
pub fn heartbeat_sample(device_id: &String, connected: bool, latency_us: u64, timestamp_ms: u64) -> (s:
    Option<LatencySample>)
    ensures
        match s {
            Some(x) => {
                &&& connected && latency_us > 0
                &&& x.device_id@ == device_id@
                &&& x.latency_us == latency_us
                &&& x.timestamp_ms == timestamp_ms
            },
            None => !(connected && latency_us > 0),
        },
{
    if connected && latency_us > 0 {
        Some(LatencySample { device_id: device_id.clone(), latency_us, timestamp_ms })
    } else {
        None
    }
}

} // verus!
