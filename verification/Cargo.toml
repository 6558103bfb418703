[package]
name = "odde"
version = "0.1.0"
edition = "2021"
publish = false

[dependencies]
serde_json = "*"
anyhow = "*"
futures = "*"
http-body-util = "*"
hyper = { version = "*", features = ["http1", "server"] }
hyper-util = { version = "*", features = ["tokio"] }
ipsea = "*"
log = "*"
pretty_env_logger = "*"
serde = { version = "*", features = ["derive"] }
tokio = { version = "*", features = ["full"] }
toml = "*"
