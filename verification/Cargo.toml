[package]
name = "usiem_sigma"
version = "0.1.0"
edition = "2021"
publish = false

[dependencies]
base64 = "=0.13.1"
serde = { version = "=1.0.229", features = ["derive"] }
chrono = "=0.4.45"
uuid = { version = "=1.27.0", features = ["v4"] }
crossbeam-channel = "=0.5.17"
regex = "*"
