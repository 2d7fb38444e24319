[package]
name = "precrypt_server"
version = "0.1.0"
edition = "2021"
publish = false

[dependencies]
orion = "=0.17.6"
nacl = "=0.5.3"
bs58 = "=0.5.1"
umbral-pre = "=0.5.2"
uuid = { version = "=1.27.0", features = ["v4"] }
serde_json = "=1.0.151"
serde = { version = "=1.0.229", features = ["derive"] }
generic-array = "=0.14.9"
