[package]
name = "http_bridge"
version = "0.1.0"
edition = "2021"
publish = false

[dependencies]
async-channel = "=2.5.0"
bevy = { version = "0.18", default-features = false }
reqwest = { version = "=0.13.5", default-features = false, features = ["json"] }
serde_json = "=1.0.154"
tokio = { version = "=1.54.1", features = ["rt", "macros"] }
