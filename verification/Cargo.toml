[package]
name = "peer_observer"
version = "0.1.0"
edition = "2021"
publish = false

[dependencies]
log = "0.4"
tokio = { version = "1", features = ["rt", "time"] }
prometheus = { version = "0.13", default-features = false }
