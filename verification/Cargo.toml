[package]
name = "zeroclaw_swarm"
version = "0.1.0"
edition = "2021"
publish = false

[dependencies]
anyhow = "1"
async-trait = "0.1"
chrono = "0.4"
crossterm = { version = "0.28", features = ["event-stream"] }
dialoguer = { version = "0.11", features = ["fuzzy-select"] }
futures-util = "0.3"
parking_lot = "0.12"
ratatui = "0.29"
rusqlite = { version = "0.32", features = ["bundled"] }
serde = { version = "1", features = ["derive"] }
serde_json = "1"
thiserror = "2"
tokio = { version = "1", features = ["full"] }
tokio-util = "0.7"
uuid = { version = "1", features = ["v4"] }
