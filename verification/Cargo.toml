[package]
name = "ordercast"
version = "0.1.0"
edition = "2021"
publish = false

[dependencies]
quinn = "=0.10.2"
rustls = { version = "=0.21.12", features = ["dangerous_configuration"] }
rcgen = "=0.11.3"
socket2 = "=0.5.10"
futures = "0.3"
tokio = { version = "1", features = ["rt-multi-thread", "macros", "net", "sync", "time", "io-util"] }
libp2p = { version = "=0.53.2", features = ["tokio", "tcp", "noise", "yamux", "gossipsub", "mdns", "macros", "ed25519"] }

[dev-dependencies]
serde_json = "1"
