[package]
name = "bili_audio"
version = "0.1.0"
edition = "2021"
publish = false

[dependencies]
serde_json = "1"
anyhow = "1"
clap = { version = "4", features = ["derive"] }
indicatif = "0.17"
reqwest = { version = "0.11", default-features = false, features = ["rustls-tls", "multipart", "stream"] }
tokio = { version = "1", features = ["full"] }
tokio-util = { version = "0.7", features = ["io"] }
async-stream = "0.3"
futures-util = "0.3"
ua_generator = "*"
duct = "0.13"
console = "0.15"
qr2term = "*"
