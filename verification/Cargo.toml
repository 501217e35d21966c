[package]
name = "uriel"
version = "0.1.0"
edition = "2021"
publish = false

[dependencies]
regex = "1"
base64 = "0.22"
chrono = "0.4"
serde = { version = "1", features = ["derive"] }
serde_json = "1"
reqwest = { version = "0.12", default-features = false, features = ["json", "stream", "rustls-tls"] }
serenity = "0.12"
tokio = { version = "1", features = ["full"] }
moka = { version = "0.12", features = ["future"] }
orichalcum = "*"
async-trait = "0.1"
futures-util = "0.3"
walkdir = "2"
