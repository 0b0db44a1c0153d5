[package]
name = "raft_node"
version = "0.1.0"
edition = "2021"
publish = false

[dependencies]
rand = "0.8"
tokio = { version = "1", features = ["macros", "rt-multi-thread", "signal"] }
axum = "0.6"
serde = { version = "1", features = ["derive"] }
serde_json = "1"
local-ip-address = "0.6"
nix = { version = "0.29", features = ["time", "socket"] }
