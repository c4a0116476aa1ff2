[package]
name = "roboplc_middleware"
version = "0.1.0"
edition = "2021"
publish = false

[dependencies]
roboplc = { version = "=0.6.4", features = ["modbus"] }
roboplc-rpc = "=0.1.8"
rtsc = "=0.4.5"
parking_lot_rt = "=0.12.1"
serde = { version = "=1.0.229", features = ["derive"] }
serde_json = "=1.0.154"
toml = "=1.1.8"
thiserror = "=2.0.21"
tracing = "=0.1.44"
tracing-subscriber = { version = "=0.3.23", features = ["env-filter"] }
tracing-appender = "=0.2.5"
tokio = { version = "=1.54.1", features = ["full"] }
tokio-stream = "=0.1.19"
futures-util = "=0.3.34"
actix-web = "=4.18.1"
actix-sse = "*"
dashmap = "=6.2.1"
crossbeam-channel = "=0.5.17"
once_cell = "=1.21.4"
notify = "=8.2.1"
binrw = "=0.14.2"
