[package]
name = "e621_downloader"
version = "0.1.0"
edition = "2021"
publish = false

[dependencies]
base64-url = "*"
serde = { version = "1", features = ["derive"] }
serde_json = "1"
reqwest = { version = "0.11", default-features = false, features = ["blocking", "json", "rustls-tls"] }
log = "0.4"
simplelog = "0.12"
console = "0.15"
dialoguer = "0.10"
indicatif = "0.17"
once_cell = "1"
anyhow = "1"
