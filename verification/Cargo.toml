[package]
name = "voice"
version = "0.1.0"
edition = "2021"
publish = false

[dependencies]
webrtc-vad = "=0.4.0"
crossbeam = "=0.8.5"
serde = { version = "=1.0.229", features = ["derive"] }
serde_json = "=1.0.154"
clap = { version = "=4.6.7", features = ["derive"] }
cpal = "=0.18.2"
dasp = { version = "=0.11.0", features = ["signal", "interpolate", "interpolate-sinc", "ring_buffer"] }
whisper-rs = "=0.16.0"
log = "=0.4.34"
env_logger = "=0.11.11"
thiserror = "=2.0.21"
actix-web = { version = "=4.18.1", default-features = false, features = ["macros"] }
tokio = { version = "=1.54.1", features = ["rt", "rt-multi-thread", "macros"] }
reqwest = { version = "*", default-features = false }
