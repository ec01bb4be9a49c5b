[package]
name = "muninn"
version = "0.1.0"
edition = "2021"
publish = false

[dependencies]
axum = "=0.8.9"
humantime = "=2.4.0"
hyper = { version = "=1.12.0", features = ["server", "http1"] }
hyper-util = { version = "=0.1.21", features = ["tokio", "server", "server-graceful", "http1", "service"] }
libc = "=0.2.191"
serde = { version = "=1.0.229", features = ["derive"] }
serde_json = { version = "=1.0.154", features = ["raw_value"] }
serde_yaml_ng = "=0.10.0"
thiserror = "=2.0.21"
tokio = { version = "=1.54.1", features = ["full"] }
toml = "=1.1.8"
tracing = "=0.1.44"
