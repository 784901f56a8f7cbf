[package]
name = "jfc"
version = "0.1.0"
edition = "2021"
publish = false

[dependencies]
anyhow = "=1.0.104"
arboard = { version = "=3.7.0", default-features = false }
crossterm = { version = "=0.29.0", features = ["event-stream"] }
dirs = "=7.0.0"
futures = "=0.3.34"
ratatui = { version = "=0.30.2", features = ["unstable-rendered-line-info"] }
ratatui-textarea = "=0.9.4"
serde_json = "=1.0.154"
tokio = { version = "=1.54.1", features = ["fs", "macros", "rt-multi-thread", "sync", "time"] }
tokio-util = "=0.7.20"
tracing = "=0.1.44"
unicode-width = "=0.2.3"
uuid = { version = "=1.29.0", features = ["v4"] }
