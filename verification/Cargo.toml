[package]
name = "baam_3ds"
version = "0.1.0"
edition = "2021"
publish = false

[dependencies]
url = "2"
imgref = "1"
serde = { version = "1", features = ["derive"] }
serde_json = "1"
ureq = { version = "3", features = ["json"] }
anyhow = "1"
async-channel = "2"
async-broadcast = "0.7"
oneshot = "0.1"
futures = "0.3"
blocking = "1"
tracing = "0.1"
tracing-subscriber = "0.3"
bytemuck = "1"
rustls-rustcrypto = "=0.0.2-alpha"
