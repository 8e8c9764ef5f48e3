[package]
name = "chat_relay"
version = "0.1.0"
edition = "2021"
publish = false

[dependencies]
serde_json = "*"
serde = "*"
tide = "*"
tide-websockets = "*"
async-std = { version = "*", features = ["attributes"] }
futures = "*"
