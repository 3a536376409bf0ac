[package]
name = "speakrs"
version = "0.1.0"
edition = "2021"
publish = false

[dependencies]
uuid = { version = "1", features = ["v4", "v7", "serde"] }
blake2 = "0.10"
bytemuck = "1"
chrono = { version = "0.4", features = ["serde"] }
sled = "0.34"
serde = { version = "1", features = ["derive"] }
serde_json = "1"
serde_bytes = "0.11"
toml = "0.8"
clap = { version = "4", features = ["derive"] }
tokio = { version = "1", features = ["full"] }
tarpc = { version = "0.35", features = ["full"] }
futures = "0.3"
linefeed = "0.6"
anyhow = "1"
thiserror = "2"
tracing = "0.1"
tracing-subscriber = "0.3"
tracing-appender = "0.2"
pin-project-lite = "0.2"
cpal = "0.15"
ringbuf = "0.4"
