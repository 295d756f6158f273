[package]
name = "common"
version = "0.1.0"
edition = "2021"
publish = false

[dependencies]
ipfs-unixfs = "=0.2.0"
cid = "0.5"
serde = { version = "1", features = ["derive"] }
serde_json = "1"
alloy-primitives = "0.8"
alloy-sol-types = "0.8"
anyhow = "1"
array-init = "2"
clap = { version = "4", features = ["derive", "env"] }
env_logger = "0.11"
log = "0.4"
tokio = { version = "1", features = ["full"] }
url = "2"
