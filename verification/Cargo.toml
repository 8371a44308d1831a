[package]
name = "chat_core"
version = "0.1.0"
edition = "2021"
publish = false

[dependencies]
async-trait = "0.1"
chrono = "=0.4.45"
futures = "=0.3.34"
libp2p = { version = "=0.53.2", features = ["gossipsub", "mdns", "tokio", "tcp", "noise", "yamux", "macros", "request-response", "dns", "ed25519"] }
serde_json = "=1.0.151"
tokio = { version = "=1.53.2", features = ["rt-multi-thread", "sync", "macros", "time", "io-util"] }
uuid = { version = "=1.27.0", features = ["v4"] }
