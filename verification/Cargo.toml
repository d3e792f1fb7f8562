[package]
name = "scheduler_core"
version = "0.1.0"
edition = "2021"
publish = false

[dependencies]
serde = { version = "=1.0.229", features = ["derive"] }
serde_json = "=1.0.154"
chrono = "=0.4.45"
libc = "=0.2.191"
anyhow = "=1.0.104"
rusqlite = { version = "=0.41.1", features = ["bundled"] }
uuid = { version = "1", features = ["v4"] }
