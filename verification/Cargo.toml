[package]
name = "rust_proxy_server"
version = "0.1.0"
edition = "2021"
publish = false

[dependencies]
lru = "0.12"
sha2 = "0.10"
hex = "0.4"
hyper = { version = "0.14", features = ["full"] }
hyper-tls = "0.5"
tokio = { version = "1", features = ["full"] }
futures = "0.3"
bytes = "1"
serde = { version = "1", features = ["derive"] }
serde_json = "1"
anyhow = "1"
tracing-subscriber = "0.3"
