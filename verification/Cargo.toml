[package]
name = "p2p_chat"
version = "0.1.0"
edition = "2021"
publish = false

[dependencies]
libp2p = { version = "0.54", features = ["tokio", "tcp", "noise", "yamux", "mdns", "kad", "gossipsub", "relay", "dcutr", "autonat", "identify", "ping", "request-response", "json", "macros", "ed25519"] }
tokio = { version = "1", features = ["macros", "rt-multi-thread", "io-std", "io-util"] }
anyhow = "1"
uuid = { version = "1", features = ["v4", "serde"] }
serde = { version = "1", features = ["derive"] }
