[package]
name = "dnsflow"
version = "0.1.0"
edition = "2021"
publish = false

[dependencies]
procfs = "=0.17.0"
hickory-proto = "=0.25.2"
hickory-resolver = "=0.25.2"
tokio = { version = "=1.54.1", features = ["full"] }
serde = { version = "=1.0.229", features = ["derive"] }
serde_json = "=1.0.154"
rusqlite = { version = "=0.32.1", features = ["bundled"] }
chrono = "=0.4.45"
aya = { version = "=0.13.1", features = ["async_tokio"] }
bytes = "=1.12.1"
libc = "=0.2.191"
