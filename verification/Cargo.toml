[package]
name = "kv"
version = "0.1.0"
edition = "2021"
publish = false

[dependencies]
dashmap = "=6.2.1"
tokio = { version = "=1.54.1", features = ["full"] }
prost = "=0.14.4"
thiserror = "=1.0.69"
sled = "=0.34.7"
rustls = "=0.19.1"
anyhow = "=1.0.104"
futures = "=0.3.34"
tokio-util = { version = "=0.7.20", features = ["codec", "compat"] }
tracing = "=0.1.44"
tracing-subscriber = "=0.3.23"
toml = "=1.1.8"
bytes = "=1.12.1"
