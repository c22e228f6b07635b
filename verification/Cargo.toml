[package]
name = "ccp"
version = "0.1.0"
edition = "2021"
publish = false

[dependencies]
nonempty = "*"
rand = { version = "0.8", features = ["small_rng"] }
serde = { version = "1", features = ["derive"] }
serde_json = "1"
thiserror = "*"
tokio = { version = "1", features = ["full"] }
tokio-util = "*"
futures = "*"
log = "*"
anyhow = "*"
chrono = "*"
csv = "*"
prometheus-client = "*"
axum = "*"
parking_lot = "*"
itertools = "*"
crossterm = { version = "*", features = ["event-stream"] }
env_logger = "*"
randomx-rust-wrapper = "*"
