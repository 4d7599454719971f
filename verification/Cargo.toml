[package]
name = "public-peer"
version = "0.1.0"
edition = "2021"
publish = false

[dependencies]
base64 = "0.13"
p256 = { version = "0.11", features = ["ecdsa"] }
serde = { version = "1", features = ["derive"] }
serde_json = { version = "1", features = ["preserve_order"] }
stun = "*"
webrtc = "*"
webrtc-ice = "*"
webrtc-util = "*"
tokio = { version = "1", features = ["full"] }
async-trait = "0.1"
eyre = "0.6"
simple_logger = "*"
rand_core = { version = "0.6", features = ["getrandom"] }
