[package]
name = "hickory_bunker"
version = "0.1.0"
edition = "2021"
publish = false

[dependencies]
hickory-proto = "0.24"
hickory-server = "0.24"
hickory-resolver = "0.24"
rocksdb = "0.22"
bincode = "1"
serde = { version = "1", features = ["derive"] }
serde_json = "1"
axum = "0.7"
tokio = { version = "1", features = ["full"] }
parking_lot = "0.12"
anyhow = "1"
async-trait = "0.1"
tracing = "0.1"
tracing-subscriber = "0.3"
