[package]
name = "wx-ilink-bot"
version = "0.1.0"
edition = "2021"
publish = false

[dependencies]
aes = "0.8"
base64 = "0.22"
rand = "0.8"
regex = "1"
md5 = "0.7"
chrono = "0.4"
anyhow = "1"
async-trait = "0.1"
serde = { version = "1", features = ["derive"] }
serde_json = "1"
tokio = { version = "1", features = ["full"] }
reqwest = { version = "0.12", default-features = false, features = ["json", "rustls-tls"] }
axum = { version = "0.7", features = ["multipart"] }
qrcode = "0.14"
image = { version = "0.25", default-features = false, features = ["png"] }
dotenvy = "0.15"
tracing = "0.1"
tracing-subscriber = "0.3"
