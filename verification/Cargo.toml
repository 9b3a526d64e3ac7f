[package]
name = "selfhosted"
version = "0.1.0"
edition = "2021"
publish = false

[dependencies]
aes-gcm = "0.10"
base64 = "0.22"
rand = "0.8"
uuid = { version = "1", features = ["v4"] }
serde = { version = "1", features = ["derive"] }
serde_json = "1"
rusqlite = { version = "0.31", features = ["bundled"] }
tokio = { version = "1", features = ["process", "time", "sync", "fs", "io-util", "rt", "macros"] }
async-trait = "0.1"
sysinfo = "0.30"
battery = "0.7"
keyring = { version = "2", default-features = false }
