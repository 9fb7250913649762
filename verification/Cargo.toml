[package]
name = "catzconnect"
version = "1.0.3"
edition = "2021"
publish = false

[dependencies]
base64 = "0.22"
blake2 = "0.10"
chacha20poly1305 = "0.10"
hyper = { version = "0.14", features = ["client", "http1", "tcp"] }
hyper-tls = "0.5"
rand = "0.8"
serde = { version = "1", features = ["derive"] }
serde_json = "1"
thiserror = "1"
x25519-dalek = { version = "2", features = ["static_secrets"] }
