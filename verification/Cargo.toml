[package]
name = "moesif_exproc"
version = "0.1.0"
edition = "2021"
publish = false

[dependencies]
regex = "1"
uuid = { version = "1", features = ["v4"] }
chrono = "0.4"
base64 = "0.22"
serde = { version = "1", features = ["derive"] }
serde_json = "1"
tokio = { version = "1", features = ["full"] }
tokio-stream = "0.1"
futures-util = "0.3"
tonic = "*"
envoy-types = "*"
reqwest = { version = "0.12", default-features = false, features = ["rustls-tls"] }
bytes = "1"
log = "0.4"
