[package]
name = "sfu_relay"
version = "0.1.0"
edition = "2021"
publish = false

[dependencies]
webrtc = "=0.11.0"
tokio = { version = "=1.53.2", features = ["macros", "rt-multi-thread", "sync"] }
warp = "=0.3.7"
serde = { version = "=1.0.229", features = ["derive"] }
anyhow = "=1.0.104"
async-trait = "=0.1.92"
tracing = "=0.1.44"
tracing-subscriber = "=0.3.23"
