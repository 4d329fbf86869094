[package]
name = "gate_server"
version = "0.1.0"
edition = "2021"
publish = false

[dependencies]
bytes = "1"
byteorder = "1"
tokio = { version = "1", features = ["full"] }
tokio-util = "0.7"
chrono = "0.4"
anyhow = "1"
async-trait = "0.1"
colored = "2"
serde = { version = "1", features = ["derive"] }
serde_yaml = "0.9"
lazy_static = "1"
prometheus = "0.13"
rouille = "3"
