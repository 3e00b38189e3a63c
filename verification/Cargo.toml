[package]
name = "cccc_relay"
version = "0.1.0"
edition = "2021"
publish = false

[dependencies]
anyhow = "=1.0.104"
axum = "0.8"
base64 = "=0.22.1"
chrono = "=0.4.45"
crc32fast = "=1.5.4"
serde_json = "=1.0.154"
sha2 = "=0.10.9"
tokio = { version = "=1.54.1", features = ["rt", "rt-multi-thread", "macros", "time", "sync", "io-util", "io-std", "net"] }
tracing = "=0.1.44"
uuid = { version = "=1.29.0", features = ["v4"] }
