[package]
name = "zeptoclaw"
version = "0.1.0"
edition = "2021"
publish = false

[dependencies]
anyhow = "=1.0.104"
async-trait = "=0.1.92"
base64 = "0.22"
chrono = "=0.4.45"
futures = "=0.3.34"
serde = { version = "=1.0.229", features = ["derive"] }
serde_json = "=1.0.154"
tokio = { version = "=1.54.1", features = ["rt-multi-thread", "macros", "net", "io-util", "sync", "time", "signal", "process"] }
tracing = "=0.1.44"
ulid = "=1.2.1"
uuid = { version = "=1.29.0", features = ["v4"] }
