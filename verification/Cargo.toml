[package]
name = "quota_control"
version = "0.1.0"
edition = "2021"
publish = false

[dependencies]
chrono = "0.4"
url = "2"
rand = "0.8"
serde = { version = "1", features = ["derive"] }
serde_json = "1"
dirs = "5"
log = "0.4"
base64 = "0.22"
aes-gcm = "0.10"
reqwest = { version = "0.12", default-features = false }
