[package]
name = "peer_mux"
version = "0.1.0"
edition = "2021"
publish = false

[dependencies]
dashmap = "*"
tokio = { version = "*", features = ["full"] }
uuid = { version = "*", features = ["v4"] }
