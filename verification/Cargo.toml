[package]
name = "lyys_launcher"
version = "0.1.0"
edition = "2021"
publish = false

[dependencies]
uuid = { version = "1", features = ["v4"] }
dirs = "*"
serde = { version = "1", features = ["derive"] }
serde_json = "1"
thiserror = "*"
tokio = { version = "1", features = ["sync", "process", "io-util", "rt", "macros"] }
log = "0.4"
zip = { version = "*", default-features = false, features = ["deflate"] }
