[package]
name = "scap_proxy"
version = "0.1.0"
edition = "2021"
publish = false

[dependencies]
httparse = "1"
rcgen = { version = "0.13", features = ["x509-parser", "pem"] }
rustls = { version = "0.23", default-features = false, features = ["ring", "std", "tls12", "logging"] }
rustls-pki-types = "1"
crossbeam-channel = "0.5"
log = "0.4"
env_logger = "0.11"
clap = { version = "4", features = ["derive"] }
serde = { version = "1", features = ["derive"] }
serde_json = "1"
libc = "0.2"
