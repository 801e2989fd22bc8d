[package]
name = "rafka"
version = "0.1.0"
edition = "2021"
publish = false

[dependencies]
uuid = { version = "1", features = ["v4"] }
tokio = { version = "1", features = ["net", "io-util", "sync", "rt-multi-thread", "macros", "time"] }
serde = { version = "1", features = ["derive"] }
serde_json = "1"
serde_yaml = "0.9"
thiserror = "1"
clap = { version = "4", features = ["derive"] }
bincode = "1.3"
futures = "0.3"
libp2p = { version = "0.53", default-features = false, features = ["tcp", "noise", "yamux", "kad", "mdns", "tokio", "macros"] }
