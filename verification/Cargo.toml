[package]
name = "localp2p"
version = "0.1.0"
edition = "2021"
publish = false

[dependencies]
libp2p-identity = { version = "*", features = ["ed25519", "peerid", "rand"] }
uuid = { version = "*", features = ["v4"] }
chrono = "*"
tracing = "*"
tracing-subscriber = "*"
tracing-appender = "*"

[dev-dependencies]
serde_json = "*"
