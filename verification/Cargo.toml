[package]
name = "evm_bridge"
version = "0.1.0"
edition = "2021"
publish = false

[dependencies]
base64 = "0.13"
evm = { version = "=0.41.1", features = ["tracing"] }
ethereum = "0.15"
primitive-types = "=0.12.2"
jsonrpc-core = "18"
jsonrpc-core-client = { version = "18", features = ["ipc"] }
jsonrpc-ipc-server = "18"
jsonrpc-http-server = "18"
jsonrpc-server-utils = "18"
tokio = { version = "1", features = ["full"] }
clap = { version = "*", features = ["derive"] }
env_logger = "*"
log = "*"
futures = "*"
serde = { version = "*", features = ["derive"] }

[dev-dependencies]
hex = "*"
