[package]
name = "raft_service_rs"
version = "0.1.0"
edition = "2021"
publish = false

[dependencies]
anyhow = "=1.0.104"
byteorder = "=1.5.0"
futures-util = "=0.3.34"
maplit = "=1.0.2"
openraft = { version = "=0.9.25", features = ["generic-snapshot-data", "serde", "single-term-leader", "storage-v2"] }
prost = "=0.14.4"
serde = { version = "=1.0.229", features = ["derive"] }
serde_json = "=1.0.154"
thiserror = "=1.0.69"
tokio = { version = "=1.54.1", features = ["full"] }
tokio-stream = "=0.1.19"
tokio-util = "=0.7.20"
tonic = "=0.14.9"
tonic-prost = "=0.14.9"
tracing = "=0.1.44"
