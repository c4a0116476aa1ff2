//! Which settings a reload of the configuration file changed.
//!
//! Settings are named by their dotted paths in the file (`server.rpc_port`,
//! `logging.level`); the device and stream lists count as one setting each.
//! Paths are reported in the order of their names.

use crate::config::{same_stream, Config, Device, FieldMapping, SignalGroup, StreamConfig};
use crate::workers::config_updater::texts;
use vstd::prelude::*;

verus! {

pub open spec fn same_field(a: FieldMapping, b: FieldMapping) -> bool {
    &&& a.name@ == b.name@
    &&& a.data_type == b.data_type
    &&& a.offset == b.offset
}

pub open spec fn same_fields(a: Seq<FieldMapping>, b: Seq<FieldMapping>) -> bool {
    &&& a.len() == b.len()
    &&& forall|i: int| 0 <= i < a.len() ==> same_field(#[trigger] a[i], b[i])
}

pub open spec fn same_group(a: SignalGroup, b: SignalGroup) -> bool {
    &&& a.name@ == b.name@
    &&& a.description@ == b.description@
    &&& a.register_address@ == b.register_address@
    &&& a.register_count == b.register_count
    &&& same_fields(a.fields@, b.fields@)
}

pub open spec fn same_groups(a: Seq<SignalGroup>, b: Seq<SignalGroup>) -> bool {
    &&& a.len() == b.len()
    &&& forall|i: int| 0 <= i < a.len() ==> same_group(#[trigger] a[i], b[i])
}

/// Whether two devices hold the same value in every setting.
pub open spec fn same_device(a: Device, b: Device) -> bool {
    &&& a.id@ == b.id@
    &&& a.device_type == b.device_type
    &&& a.address@ == b.address@
    &&& a.port == b.port
    &&& a.unit_id == b.unit_id
    &&& a.addressing_mode == b.addressing_mode
    &&& a.byte_order == b.byte_order
    &&& a.tcp_nodelay == b.tcp_nodelay
    &&& a.max_concurrent_ops == b.max_concurrent_ops
    &&& a.max_pool_size == b.max_pool_size
    &&& a.heartbeat_interval_sec == b.heartbeat_interval_sec
    &&& a.pool_health_check_interval_sec == b.pool_health_check_interval_sec
    &&& same_groups(a.signal_groups@, b.signal_groups@)
}

pub open spec fn same_devices(a: Seq<Device>, b: Seq<Device>) -> bool {
    &&& a.len() == b.len()
    &&& forall|i: int| 0 <= i < a.len() ==> same_device(#[trigger] a[i], b[i])
}

pub open spec fn same_streams(a: Seq<StreamConfig>, b: Seq<StreamConfig>) -> bool {
    &&& a.len() == b.len()
    &&& forall|i: int| 0 <= i < a.len() ==> same_stream(#[trigger] a[i], b[i])
}

/// `path` alone when `differs`, nothing otherwise.
pub open spec fn changed_if(differs: bool, path: Seq<char>) -> Seq<Seq<char>> {
    if differs {
        seq![path]
    } else {
        Seq::empty()
    }
}

/// The paths of the settings of `old` that `new` changes, in the order of
/// their names.
pub open spec fn config_changes(old: Config, new: Config) -> Seq<Seq<char>> {
    let (l, m) = (old.logging, new.logging);
    let (s, t) = (old.server, new.server);
    let (a, b) = (old.stream_settings, new.stream_settings);
    let (x, y) = (old.timeouts, new.timeouts);
    changed_if(!same_devices(old.devices@, new.devices@), "devices"@)
        + changed_if(l.daily_rotation != m.daily_rotation, "logging.daily_rotation"@)
        + changed_if(l.file@ != m.file@, "logging.file"@)
        + changed_if(l.level@ != m.level@, "logging.level"@)
        + changed_if(s.http_port != t.http_port, "server.http_port"@)
        + changed_if(s.rpc_max_blocking_threads != t.rpc_max_blocking_threads, "server.rpc_max_blocking_threads"@)
        + changed_if(s.rpc_port != t.rpc_port, "server.rpc_port"@)
        + changed_if(s.rpc_worker_threads != t.rpc_worker_threads, "server.rpc_worker_threads"@)
        + changed_if(a.cache_ttl_ms != b.cache_ttl_ms, "stream_settings.cache_ttl_ms"@)
        + changed_if(a.enable_websocket != b.enable_websocket, "stream_settings.enable_websocket"@)
        + changed_if(a.max_concurrent_streams != b.max_concurrent_streams, "stream_settings.max_concurrent_streams"@)
        + changed_if(a.websocket_port != b.websocket_port, "stream_settings.websocket_port"@)
        + changed_if(!same_streams(old.streams@, new.streams@), "streams"@)
        + changed_if(x.connect_timeout_ms != y.connect_timeout_ms, "timeouts.connect_timeout_ms"@)
        + changed_if(x.heartbeat_timeout_ms != y.heartbeat_timeout_ms, "timeouts.heartbeat_timeout_ms"@)
        + changed_if(x.hub_send_timeout_ms != y.hub_send_timeout_ms, "timeouts.hub_send_timeout_ms"@)
        + changed_if(x.max_operation_timeout_ms != y.max_operation_timeout_ms, "timeouts.max_operation_timeout_ms"@)
        + changed_if(x.operation_timeout_ms != y.operation_timeout_ms, "timeouts.operation_timeout_ms"@)
        + changed_if(
            x.pool_health_check_interval_sec != y.pool_health_check_interval_sec,
            "timeouts.pool_health_check_interval_sec"@,
        )
}

fn push_if(out: &mut Vec<String>, differs: bool, path: &str)
    ensures
        texts(final(out)@) == texts(old(out)@) + changed_if(differs, path@),
{
    if differs {
        out.push(path.to_owned());
        assert(texts(out@) =~= texts(old(out)@) + changed_if(differs, path@));
    } else {
        assert(texts(out@) =~= texts(old(out)@) + changed_if(differs, path@));
    }
}

fn fields_match(a: &[FieldMapping], b: &[FieldMapping]) -> (r: bool)
    ensures
        r == same_fields(a@, b@),
{
    if a.len() != b.len() {
        return false;
    }
    let mut i: usize = 0;
    while i < a.len()
        invariant
            i <= a@.len() == b@.len(),
            forall|k: int| 0 <= k < i ==> same_field(#[trigger] a@[k], b@[k]),
        decreases a.len() - i,
    {
        if !(a[i].name == b[i].name && a[i].data_type == b[i].data_type && a[i].offset == b[i].offset) {
            return false;
        }
        i = i + 1;
    }
    true
}

fn groups_match(a: &[SignalGroup], b: &[SignalGroup]) -> (r: bool)
    ensures
        r == same_groups(a@, b@),
{
    if a.len() != b.len() {
        return false;
    }
    let mut i: usize = 0;
    while i < a.len()
        invariant
            i <= a@.len() == b@.len(),
            forall|k: int| 0 <= k < i ==> same_group(#[trigger] a@[k], b@[k]),
        decreases a.len() - i,
    {
        let g = &a[i];
        let h = &b[i];
        if !(g.name == h.name && g.description == h.description && g.register_address
            == h.register_address && g.register_count == h.register_count && fields_match(
            g.fields.as_slice(),
            h.fields.as_slice(),
        )) {
            return false;
        }
        i = i + 1;
    }
    true
}

fn device_matches(a: &Device, b: &Device) -> (r: bool)
    ensures
        r == same_device(*a, *b),
{
    a.id == b.id && a.device_type == b.device_type && a.address == b.address && a.port == b.port
        && a.unit_id == b.unit_id && a.addressing_mode == b.addressing_mode && a.byte_order
        == b.byte_order && a.tcp_nodelay == b.tcp_nodelay && a.max_concurrent_ops
        == b.max_concurrent_ops && a.max_pool_size == b.max_pool_size && a.heartbeat_interval_sec
        == b.heartbeat_interval_sec && a.pool_health_check_interval_sec
        == b.pool_health_check_interval_sec && groups_match(
        a.signal_groups.as_slice(),
        b.signal_groups.as_slice(),
    )
}

fn devices_match(a: &[Device], b: &[Device]) -> (r: bool)
    ensures
        r == same_devices(a@, b@),
{
    if a.len() != b.len() {
        return false;
    }
    let mut i: usize = 0;
    while i < a.len()
        invariant
            i <= a@.len() == b@.len(),
            forall|k: int| 0 <= k < i ==> same_device(#[trigger] a@[k], b@[k]),
        decreases a.len() - i,
    {
        if !device_matches(&a[i], &b[i]) {
            return false;
        }
        i = i + 1;
    }
    true
}

/// The paths of the settings of `old` that `new` changes, in the order of
/// their names; empty when the reload changed nothing.
pub fn changed_paths(old: &Config, new: &Config) -> (r: Vec<String>)
    ensures
        texts(r@) == config_changes(*old, *new),
{
    let mut out: Vec<String> = Vec::new();
    assert(texts(out@) =~= Seq::<Seq<char>>::empty());
    push_if(&mut out, !devices_match(old.devices.as_slice(), new.devices.as_slice()), "devices");
    assert(texts(out@) =~= changed_if(!same_devices(old.devices@, new.devices@), "devices"@));
    push_if(&mut out, old.logging.daily_rotation != new.logging.daily_rotation, "logging.daily_rotation");
    push_if(&mut out, old.logging.file != new.logging.file, "logging.file");
    push_if(&mut out, old.logging.level != new.logging.level, "logging.level");
    push_if(&mut out, old.server.http_port != new.server.http_port, "server.http_port");
    push_if(
        &mut out,
        old.server.rpc_max_blocking_threads != new.server.rpc_max_blocking_threads,
        "server.rpc_max_blocking_threads",
    );
    push_if(&mut out, old.server.rpc_port != new.server.rpc_port, "server.rpc_port");
    push_if(
        &mut out,
        old.server.rpc_worker_threads != new.server.rpc_worker_threads,
        "server.rpc_worker_threads",
    );
    push_if(
        &mut out,
        old.stream_settings.cache_ttl_ms != new.stream_settings.cache_ttl_ms,
        "stream_settings.cache_ttl_ms",
    );
    push_if(
        &mut out,
        old.stream_settings.enable_websocket != new.stream_settings.enable_websocket,
        "stream_settings.enable_websocket",
    );
    push_if(
        &mut out,
        old.stream_settings.max_concurrent_streams != new.stream_settings.max_concurrent_streams,
        "stream_settings.max_concurrent_streams",
    );
    push_if(
        &mut out,
        old.stream_settings.websocket_port != new.stream_settings.websocket_port,
        "stream_settings.websocket_port",
    );
    let streams_differ = old.streams_differ(new.streams.as_slice());
    assert(streams_differ == !same_streams(old.streams@, new.streams@));
    push_if(&mut out, streams_differ, "streams");
    push_if(
        &mut out,
        old.timeouts.connect_timeout_ms != new.timeouts.connect_timeout_ms,
        "timeouts.connect_timeout_ms",
    );
    push_if(
        &mut out,
        old.timeouts.heartbeat_timeout_ms != new.timeouts.heartbeat_timeout_ms,
        "timeouts.heartbeat_timeout_ms",
    );
    push_if(
        &mut out,
        old.timeouts.hub_send_timeout_ms != new.timeouts.hub_send_timeout_ms,
        "timeouts.hub_send_timeout_ms",
    );
    push_if(
        &mut out,
        old.timeouts.max_operation_timeout_ms != new.timeouts.max_operation_timeout_ms,
        "timeouts.max_operation_timeout_ms",
    );
    push_if(
        &mut out,
        old.timeouts.operation_timeout_ms != new.timeouts.operation_timeout_ms,
        "timeouts.operation_timeout_ms",
    );
    push_if(
        &mut out,
        old.timeouts.pool_health_check_interval_sec != new.timeouts.pool_health_check_interval_sec,
        "timeouts.pool_health_check_interval_sec",
    );
    out
}

/// Takes a reloaded configuration: the paths it changed are returned, and
/// it replaces `current` only when it changed something; an unchanged
/// reload announces nothing and keeps the configuration as it was.
pub fn apply_reload(current: &mut Config, reloaded: Config) -> (r: Vec<String>)
    ensures
        texts(r@) == config_changes(*old(current), reloaded),
        r@.len() == 0 ==> *final(current) == *old(current),
        r@.len() > 0 ==> *final(current) == reloaded,
{
    let changed = changed_paths(current, &reloaded);
    if changed.len() > 0 {
        *current = reloaded;
    }
    changed
}

/// Reloading a configuration that did not change reports no change.
pub proof fn lemma_unchanged_config_has_no_changes(c: Config)
    ensures
        config_changes(c, c) == Seq::<Seq<char>>::empty(),
{
    assert(same_devices(c.devices@, c.devices@)) by {
        assert forall|i: int| 0 <= i < c.devices@.len() implies same_device(
            #[trigger] c.devices@[i],
            c.devices@[i],
        ) by {
            let d = c.devices@[i];
            assert forall|j: int| 0 <= j < d.signal_groups@.len() implies same_group(
                #[trigger] d.signal_groups@[j],
                d.signal_groups@[j],
            ) by {}
        }
    }
    assert(config_changes(c, c) =~= Seq::<Seq<char>>::empty());
}

/// Whether the first changed path reported is `devices`.
pub open spec fn reports_devices(paths: Seq<Seq<char>>) -> bool {
    paths.len() > 0 && paths[0] == "devices"@
}

proof fn lemma_devices_differ_reported(old: Config, new: Config)
    requires
        !same_devices(old.devices@, new.devices@),
    ensures
        reports_devices(config_changes(old, new)),
{
    assert forall|x: Seq<Seq<char>>, y: Seq<Seq<char>>| x.len() > 0 implies (#[trigger] (x
        + y)).len() > 0 && (x + y)[0] == x[0] by {}
    assert(changed_if(true, "devices"@)[0] == "devices"@);
}

/// A reload whose device list has another length reports `devices`.
pub proof fn lemma_device_count_change_is_reported(old: Config, new: Config)
    requires
        old.devices@.len() != new.devices@.len(),
    ensures
        reports_devices(config_changes(old, new)),
{
    lemma_devices_differ_reported(old, new);
}

/// A reload that changes any setting of device `i` (its id, type, address,
/// port, unit, addressing mode, byte order, `tcp_nodelay`, operation and
/// pool limits, heartbeat or pool check interval, or the number of its
/// signal groups) reports `devices`.
pub proof fn lemma_changed_device_setting_is_reported(old: Config, new: Config, i: int)
    requires
        0 <= i < old.devices@.len(),
        i < new.devices@.len(),
        ({
            let a = old.devices@[i];
            let b = new.devices@[i];
            ||| a.id@ != b.id@
            ||| a.device_type != b.device_type
            ||| a.address@ != b.address@
            ||| a.port != b.port
            ||| a.unit_id != b.unit_id
            ||| a.addressing_mode != b.addressing_mode
            ||| a.byte_order != b.byte_order
            ||| a.tcp_nodelay != b.tcp_nodelay
            ||| a.max_concurrent_ops != b.max_concurrent_ops
            ||| a.max_pool_size != b.max_pool_size
            ||| a.heartbeat_interval_sec != b.heartbeat_interval_sec
            ||| a.pool_health_check_interval_sec != b.pool_health_check_interval_sec
            ||| a.signal_groups@.len() != b.signal_groups@.len()
        }),
    ensures
        reports_devices(config_changes(old, new)),
{
    assert(!same_device(old.devices@[i], new.devices@[i]));
    lemma_devices_differ_reported(old, new);
}

/// A reload that changes signal group `j` of device `i` (its name,
/// description, address, register count, or the number of its fields)
/// reports `devices`.
pub proof fn lemma_changed_group_is_reported(old: Config, new: Config, i: int, j: int)
    requires
        0 <= i < old.devices@.len(),
        i < new.devices@.len(),
        0 <= j < old.devices@[i].signal_groups@.len(),
        j < new.devices@[i].signal_groups@.len(),
        ({
            let g = old.devices@[i].signal_groups@[j];
            let h = new.devices@[i].signal_groups@[j];
            ||| g.name@ != h.name@
            ||| g.description@ != h.description@
            ||| g.register_address@ != h.register_address@
            ||| g.register_count != h.register_count
            ||| g.fields@.len() != h.fields@.len()
        }),
    ensures
        reports_devices(config_changes(old, new)),
{
    let a = old.devices@[i];
    let b = new.devices@[i];
    assert(!same_group(a.signal_groups@[j], b.signal_groups@[j]));
    assert(!same_groups(a.signal_groups@, b.signal_groups@));
    assert(!same_device(a, b));
    lemma_devices_differ_reported(old, new);
}

/// A reload that changes field `k` of signal group `j` of device `i` (its
/// name, data type or offset) reports `devices`.
pub proof fn lemma_changed_field_mapping_is_reported(
    old: Config,
    new: Config,
    i: int,
    j: int,
    k: int,
)
    requires
        0 <= i < old.devices@.len(),
        i < new.devices@.len(),
        0 <= j < old.devices@[i].signal_groups@.len(),
        j < new.devices@[i].signal_groups@.len(),
        0 <= k < old.devices@[i].signal_groups@[j].fields@.len(),
        k < new.devices@[i].signal_groups@[j].fields@.len(),
        ({
            let f = old.devices@[i].signal_groups@[j].fields@[k];
            let e = new.devices@[i].signal_groups@[j].fields@[k];
            ||| f.name@ != e.name@
            ||| f.data_type != e.data_type
            ||| f.offset != e.offset
        }),
    ensures
        reports_devices(config_changes(old, new)),
{
    let a = old.devices@[i];
    let b = new.devices@[i];
    let g = a.signal_groups@[j];
    let h = b.signal_groups@[j];
    assert(!same_field(g.fields@[k], h.fields@[k]));
    assert(!same_fields(g.fields@, h.fields@));
    assert(!same_group(g, h));
    assert(!same_groups(a.signal_groups@, b.signal_groups@));
    assert(!same_device(a, b));
    lemma_devices_differ_reported(old, new);
}

/// A reload whose device list is the same as before does not report
/// `devices`: the paths it reports are those of the other settings.
#[verifier::rlimit(40)]
pub proof fn lemma_unchanged_devices_are_not_reported(old: Config, new: Config)
    requires
        old.devices@ == new.devices@,
    ensures
        !reports_devices(config_changes(old, new)),
{
    assert(same_devices(old.devices@, new.devices@)) by {
        assert forall|i: int| 0 <= i < old.devices@.len() implies same_device(
            #[trigger] old.devices@[i],
            new.devices@[i],
        ) by {
            let d = old.devices@[i];
            assert(new.devices@[i] == d);
            assert forall|j: int| 0 <= j < d.signal_groups@.len() implies same_group(
                #[trigger] d.signal_groups@[j],
                d.signal_groups@[j],
            ) by {}
        }
    }
    let d = "devices"@;
    reveal_strlit("devices");
    reveal_strlit("logging.daily_rotation");
    reveal_strlit("logging.file");
    reveal_strlit("logging.level");
    reveal_strlit("server.http_port");
    reveal_strlit("server.rpc_max_blocking_threads");
    reveal_strlit("server.rpc_port");
    reveal_strlit("server.rpc_worker_threads");
    reveal_strlit("stream_settings.cache_ttl_ms");
    reveal_strlit("stream_settings.enable_websocket");
    reveal_strlit("stream_settings.max_concurrent_streams");
    reveal_strlit("stream_settings.websocket_port");
    reveal_strlit("streams");
    reveal_strlit("timeouts.connect_timeout_ms");
    reveal_strlit("timeouts.heartbeat_timeout_ms");
    reveal_strlit("timeouts.hub_send_timeout_ms");
    reveal_strlit("timeouts.max_operation_timeout_ms");
    reveal_strlit("timeouts.operation_timeout_ms");
    reveal_strlit("timeouts.pool_health_check_interval_sec");
    assert("streams"@ != d) by {
        assert("streams"@[0] != d[0]);
    }
    assert forall|x: Seq<Seq<char>>, y: Seq<Seq<char>>|
        #![trigger x + y]
        lacks_path(x, d) && lacks_path(y, d) implies lacks_path(x + y, d) by {
        assert forall|k: int| 0 <= k < (x + y).len() implies (x + y)[k] != d by {
            if k < x.len() {
                assert((x + y)[k] == x[k]);
            } else {
                assert((x + y)[k] == y[k - x.len()]);
            }
        }
    }
    assert forall|b: bool, p: Seq<char>| p != d implies #[trigger] lacks_path(changed_if(b, p), d) by {}
    assert(d.len() == 7);
    assert(lacks_path(changed_if(false, d), d));
    assert(lacks_path(config_changes(old, new), d));
}

/// Whether no entry of `paths` is `p`.
spec fn lacks_path(paths: Seq<Seq<char>>, p: Seq<char>) -> bool {
    forall|k: int| 0 <= k < paths.len() ==> paths[k] != p
}

} // verus!
