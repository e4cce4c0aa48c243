[package]
name = "android_emulator"
version = "0.1.0"
edition = "2021"
publish = false

[dependencies]
anyhow = "1"
dirs = "4"
http = "1"
image = { version = "0.25", default-features = false }
log = "0.4"
prost = "0.13"
smallvec = "1"
smol = "2"
tokio = { version = "1", features = ["rt", "time"] }
tokio-stream = "0.1"
tonic = { version = "0.12", default-features = false, features = ["channel", "prost"] }
