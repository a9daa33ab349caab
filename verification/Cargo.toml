[package]
name = "xblock"
version = "0.1.0"
edition = "2021"
publish = false

[dependencies]
sha3 = "0.10"
chrono = { version = "0.4", default-features = false, features = ["now"] }
serde = { version = "1", features = ["derive"] }
serde_json = "1"
anyhow = "1"
log = "0.4"
clap = { version = "4", default-features = false, features = ["std", "derive", "help", "usage", "error-context"] }
tokio = { version = "1", features = ["macros", "rt-multi-thread", "sync"] }
libp2p = { version = "0.57", features = ["tcp", "tokio", "noise", "yamux", "floodsub", "mdns", "macros"] }
