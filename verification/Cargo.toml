[package]
name = "rumon"
version = "0.1.0"
edition = "2021"
publish = false

[dependencies]
similar = "=2.7.0"
globset = "=0.4.21"
regex = "=1.13.1"
serde = { version = "1", features = ["derive"] }
serde_json = "1"
tokio = { version = "1", features = ["rt-multi-thread", "net", "sync", "macros"] }
axum = { version = "0.8", features = ["ws"] }
futures-util = { version = "0.3", features = ["sink"] }
tokio-stream = { version = "0.1", features = ["sync"] }
interprocess = "2"
