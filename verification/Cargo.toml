[package]
name = "archrypt"
version = "0.1.0"
edition = "2021"
publish = false

[dependencies]
aes-gcm = "0.10"
rsa = "0.9"
zip = { version = "2", default-features = false, features = ["deflate"] }
anyhow = "1"
clap = "4"
dirs = "5"
indicatif = "0.17"
serde = { version = "1", features = ["derive"] }
serde_json = "1"
tempfile = "3"
walkdir = "2"
