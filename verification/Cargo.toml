[package]
name = "vibeking"
version = "0.1.0"
edition = "2021"
publish = false

[dependencies]
regex = "1"
serde = { version = "1", features = ["derive"] }
serde_json = "1"
strsim = "0.11"
anyhow = "1"
base64 = "0.22"
hound = "3"
log = "0.4"
parking_lot = "0.12"
dirs = "5"
futures-util = "0.3"
tokio = { version = "1", features = ["time", "rt", "sync", "macros"] }
reqwest = { version = "0.12", default-features = false, features = ["json", "multipart", "rustls-tls", "stream"] }
