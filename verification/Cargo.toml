[package]
name = "peacock"
version = "0.1.0"
edition = "2021"
publish = false

[dependencies]
bincode = "1"
serde = { version = "1", features = ["derive"] }
serde_json = "1"
uuid = { version = "1", features = ["v4"] }
tokio = { version = "1", features = ["net", "time", "sync", "io-util", "fs", "rt-multi-thread", "macros"] }
socket2 = { version = "0.5", features = ["all"] }
local-ip-address = "*"
dirs = "*"
hostname = "*"
tracing = "0.1"
tracing-subscriber = { version = "0.3", features = ["env-filter"] }
thiserror = "*"
rusqlite = { version = "*", features = ["bundled"] }
libc = "0.2"
