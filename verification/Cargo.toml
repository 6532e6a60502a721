[package]
name = "network_discover"
version = "0.1.0"
edition = "2021"
publish = false

[dependencies]
xml-rs = "0.8"
uuid = { version = "1", features = ["v4"] }
serde_json = "1"
log = "0.4"
