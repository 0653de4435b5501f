[package]
name = "thz_runtime"
version = "0.1.0"
edition = "2021"
publish = false

[dependencies]
argon2 = { version = "0.5", features = ["std"] }
aes-gcm = "0.10"
