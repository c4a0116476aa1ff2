# roboplc_middleware

A RoboPLC middleware that exposes Modbus TCP devices through JSON-RPC 2.0
and HTTP (with server-sent event streams), written as a Verus project.

## Layout

- `src/` – the verified library. Every function carries a contract that
  Verus proves:
  - `config` – configuration model, defaults and validation;
  - `data_conversion`, `profiles` – register bytes and numbers, byte orders,
    register addresses;
  - `workers/modbus` – Modbus operations, field encoding and parsing, the
    connection pool, the per-device worker state and the planning of device
    control requests;
  - `workers/rpc` – request framing, answers and cleanup of the RPC server;
  - `workers/http`, `workers/sse`, `workers/data_stream`,
    `workers/heartbeat`, `workers/latency_monitor`,
    `workers/config_loader`, `workers/config_updater` – the decisions of the
    other workers;
  - `data_cache`, `device_states` – the latest values of each signal group
    and the status of each device;
  - `mock_server` – the request handling of a stand-in Modbus server;
  - `text`, `time` – character and duration helpers.
- `app/` – the process around the library: sockets, threads, async
  runtimes, the RoboPLC controller and workers, JSON and TOML, floating
  point statistics.
- `tests/` – tests of the library.

Shared tables (the data cache, the device states, the open event streams)
are verified tables that `app/` keeps behind a `Mutex`. A concurrent map
that changes through shared references cannot be given its contents in a
contract, so the tables are plain vectors with exact contracts, locked as a
whole.

Verification: `verus` on `src/lib.rs`; the only trusted items are the
wrappers and declarations in `text.rs`, `time.rs`, `events.rs` and
`config.rs`, each with a doc comment saying what it assumes.
