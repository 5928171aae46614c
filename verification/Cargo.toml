[package]
name = "kpasskey"
version = "0.1.0"
edition = "2021"
publish = false

[dependencies]
anyhow = "1"
base64 = "0.22"
ciborium = "0.2"
p256 = { version = "0.13", features = ["ecdsa", "pem", "pkcs8"] }
rand = "0.9"
serde = { version = "1", features = ["derive"] }
serde_json = "1"
sha2 = "0.10"
tokio = { version = "1", features = ["rt", "net", "io-util", "sync", "time", "macros"] }
zbus = "5"
