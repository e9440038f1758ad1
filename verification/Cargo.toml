[package]
name = "nexel"
version = "0.1.0"
edition = "2021"
publish = false

[dependencies]
bytes = "1"
url = "2"
ipnetwork = "0.20"
maxminddb = "0.24"
tokio = { version = "1", features = ["full"] }
tokio-rustls = { version = "0.26", default-features = false, features = ["ring", "tls12"] }
rustls-pemfile = "2"
rustls-pki-types = "1"
argh = "0.1"
env_logger = "0.11"
log = "0.4"
serde = { version = "1", features = ["derive"] }
serde_yml = "*"
uuid = { version = "1", features = ["v4"] }
