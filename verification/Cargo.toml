[package]
name = "electrs_pivx"
version = "0.1.0"
edition = "2021"
publish = false

[dependencies]
anyhow = "1.0"
bitcoin = "0.32"
bitcoincore-rpc = "0.19"
configure_me = "0.4"
crossbeam-channel = "0.5"
dirs-next = "2.0"
env_logger = "0.10"
hex = "0.4"
log = "0.4"
parking_lot = "0.12"
serde = { version = "1.0", features = ["derive"] }
serde_json = "1.0"
