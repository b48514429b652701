[package]
name = "hyperlight_agents"
version = "0.1.0"
edition = "2021"
publish = false

[dependencies]
serde = { version = "1", features = ["derive"] }
serde_json = "1"
regex = "1"
uuid = { version = "1", features = ["v4"] }
chrono = "0.4"
log = "0.4"
env_logger = "0.11"
lazy_static = "1"
tempfile = "3"
vsock = "*"
memfd = "*"
tokio = { version = "1", features = ["full"] }
reqwest = { version = "0.12", default-features = false, features = ["rustls-tls"] }
hyper = { version = "0.14", features = ["server", "client", "http1", "tcp"] }
rust-mcp-schema = "*"
rust-mcp-sdk = "*"
async-trait = "0.1"
strum_macros = "*"
hyperlight-host = "*"
hyperlight-common = "*"
clap = { version = "4", features = ["derive"] }
colored = "*"
flate2 = "1"
tar = "*"
which = "*"
anyhow = "1"
futures-util = "0.3"
