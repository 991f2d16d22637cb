[package]
name = "deskpi"
version = "0.1.0"
edition = "2021"
publish = false

[dependencies]
base64 = "*"
serde_json = "*"
serialport = { version = "*", default-features = false }
rppal = "*"
