[package]
name = "taskhomie"
version = "0.1.0"
edition = "2021"
publish = false

[dependencies]
serde = { version = "=1.0.229", features = ["derive"] }
serde_json = "=1.0.154"
uuid = { version = "=1.29.0", features = ["v4"] }
base64 = "=0.22.1"
image = { version = "=0.25.10", default-features = false, features = ["jpeg"] }
thiserror = "=1.0.69"
anyhow = "=1.0.104"
rusqlite = { version = "=0.32.1", features = ["bundled"] }
dirs = "=5.0.1"
dotenvy = "=0.15.7"
tokio = { version = "=1.54.1", features = ["rt-multi-thread", "macros", "sync", "time", "fs", "process"] }
reqwest = { version = "=0.12.28", default-features = false, features = ["json", "stream", "rustls-tls"] }
futures = "=0.3.34"
futures-util = "=0.3.34"
bytes = "=1.12.1"
