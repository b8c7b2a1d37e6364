[package]
name = "sudare"
version = "0.1.0"
edition = "2021"
publish = false

[dependencies]
log = "0.4"
portable-pty = "0.8"
regex = "1"
serde = { version = "1", features = ["derive"] }
serde_json = "1"
sha2 = "0.10"
termwiz = "0.20"
