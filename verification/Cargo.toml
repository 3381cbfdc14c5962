[package]
name = "weldr"
version = "0.1.0"
edition = "2021"
publish = false

[dependencies]
bytes = "=0.4.12"
clap = "=2.34.0"
env_logger = "=0.4.3"
futures = "=0.1.31"
httparse = "=1.10.1"
hyper = "=0.11.27"
hyper-timeout = "=0.1.2"
libc = "=0.2.191"
log = "=0.3.9"
nix = { version = "=0.31.3", features = ["process"] }
serde = { version = "=1.0.229", features = ["derive"] }
serde_json = "=1.0.154"
tokio-core = "=0.1.18"
tokio-io = "=0.1.13"
tokio-proto = "=0.1.1"
tokio-service = "=0.1.0"
tokio-timer = "=0.1.2"
