[package]
name = "chronos"
version = "0.1.0"
edition = "2021"
publish = false

[dependencies]
async-trait = "0.1"
dashmap = "*"
etcd-client = "*"
futures = "0.3"
prometheus = { version = "*", default-features = false }
prost = "*"
prost-types = "*"
serde = { version = "1", features = ["derive"] }
serde_json = "1"
tokio = { version = "1", features = ["macros", "rt", "rt-multi-thread", "sync", "time"] }
tokio-stream = "0.1"
tonic = "*"
tracing = "0.1"
