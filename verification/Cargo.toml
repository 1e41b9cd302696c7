[package]
name = "signaling_server"
version = "0.1.0"
edition = "2021"
publish = false

[dependencies]
anyhow = "*"
axum = { version = "*", features = ["ws"] }
futures-util = "*"
log = "*"
serde_json = "*"
tokio = { version = "*", features = ["rt-multi-thread", "sync", "macros"] }
tokio-stream = "*"
wasm-peers-protocol = "*"
