[package]
name = "state_root_bridge"
version = "0.1.0"
edition = "2021"
publish = false

[dependencies]
alloy-primitives = { version = "0.8", default-features = false, features = ["std"] }
alloy-sol-types = { version = "0.8", default-features = false, features = ["std"] }
clap = { version = "4", features = ["derive"] }
eyre = "0.6"
futures = "0.3"
secp256k1 = "0.27"
tracing = "0.1"
web3 = { version = "0.19", default-features = false, features = ["http", "signing"] }
