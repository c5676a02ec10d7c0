[package]
name = "utxo_chain"
version = "0.1.0"
edition = "2021"
publish = false

[dependencies]
futures = "0.3"
libp2p = { version = "0.53", features = ["tokio", "gossipsub", "mdns", "noise", "macros", "tcp", "yamux", "quic"] }
regex = "1"
serde = { version = "1", features = ["derive"] }
serde_json = "1"
sha256 = { version = "1", default-features = false }
tokio = { version = "1", features = ["full"] }
tracing-subscriber = { version = "0.3", features = ["env-filter"] }
