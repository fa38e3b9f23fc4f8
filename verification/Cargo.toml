[package]
name = "noted_core"
version = "0.1.0"
edition = "2021"
publish = false

[dependencies]
sha2 = "=0.10.9"
base64 = "=0.22.1"
serde = { version = "=1.0.229", features = ["derive"] }
serde_json = "=1.0.154"
chrono = { version = "=0.4.45", default-features = false, features = ["std", "clock"] }
rusqlite = "=0.31.0"
p256 = { version = "=0.13.2", features = ["ecdsa"] }
aes-gcm = "=0.10.3"
hkdf = "=0.12.4"
getrandom = "=0.3.4"
rand = "=0.8.8"
