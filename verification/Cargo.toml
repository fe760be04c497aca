[package]
name = "p2p_blockchain_rust"
version = "0.1.0"
edition = "2021"
publish = false

[dependencies]
sha2 = "0.10"
data-encoding = "2"
num-bigint = "0.4"
serde = { version = "1", features = ["derive"] }
serde_json = "1"
libp2p = { version = "0.53", features = ["gossipsub", "mdns", "noise", "tcp", "yamux", "tokio", "macros"] }
tokio = { version = "1", features = ["full"] }
futures = "0.3"
tracing = "0.1"
tracing-subscriber = { version = "0.3", features = ["env-filter"] }
log = "0.4"
