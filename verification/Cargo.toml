[package]
name = "smalux_agent"
version = "0.1.0"
edition = "2021"
publish = false

[dependencies]
anyhow = "1"
async-trait = "0.1"
base64 = "0.22"
chrono = "0.4"
chrono-tz = "0.10"
croner = "*"
futures-util = "0.3"
portable-pty = "*"
prost-types = "*"
reqwest = { version = "0.12", default-features = false }
serde = { version = "1", features = ["derive"] }
serde_json = "1"
thiserror = "2"
tokio = { version = "1", features = ["rt", "rt-multi-thread", "macros", "sync", "time", "net", "process", "io-util"] }
tokio-util = { version = "0.7", features = ["time"] }
tracing = "0.1"
uuid = { version = "1", features = ["v4"] }
