[package]
name = "gateway_auth"
version = "0.1.0"
edition = "2021"
publish = false

[dependencies]
axum = { version = "=0.8.9", default-features = false }
base64 = "=0.22.1"
jsonwebtoken = { version = "=10.4.0", default-features = false, features = ["use_pem", "aws_lc_rs"] }
reqwest = { version = "=0.12.28", default-features = false, features = ["rustls-tls"] }
serde_json = "=1.0.154"
subtle = "=2.6.1"
thiserror = "2"
tokio = { version = "1", features = ["sync"] }
tracing = "0.1"
url = "=2.5.8"
