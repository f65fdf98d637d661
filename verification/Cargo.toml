[package]
name = "fleet_control"
version = "0.1.0"
edition = "2021"
publish = false

[dependencies]
chrono = "0.4"
uuid = { version = "1", features = ["v4"] }
hmac = "0.10"
crypto-mac = "0.10"
sha2 = "0.9"
hex = "0.4"
serde = { version = "1", features = ["derive"] }
serde_json = "1"
