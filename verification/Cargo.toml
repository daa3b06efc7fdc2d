[package]
name = "model_gateway"
version = "0.1.0"
edition = "2021"
publish = false

[dependencies]
aes = "=0.9.4"
base64 = "=0.22.1"
bytes = "=1.12.1"
chrono = "=0.4.45"
futures = "=0.3.34"
getrandom = "=0.2.17"
md-5 = "=0.11.0"
num-bigint = "=0.4.8"
reqwest = { version = "=0.12.28", default-features = false, features = ["json", "rustls-tls", "socks", "stream"] }
serde_json = "=1.0.154"
sha2 = "=0.11.1"
tokio = { version = "=1.54.1", features = ["sync", "time", "rt", "macros"] }
tokio-stream = "=0.1.19"
url = "=2.5.8"
