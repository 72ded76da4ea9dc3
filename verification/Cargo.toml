[package]
name = "protocol_core"
version = "0.1.0"
edition = "2021"
publish = false

[dependencies]
tokio = { version = "*", features = ["full"] }
log = "*"
simple_logger = "*"
cubic-chat = "*"
serde_json = "*"
