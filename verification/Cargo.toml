[package]
name = "secure_sign"
version = "0.1.0"
edition = "2021"
publish = false

[dependencies]
base64 = "0.22"
p256 = "0.13"
pkcs8 = "0.10"
serde = { version = "1", features = ["derive"] }
serde_json = "1"
jni = "0.21"
