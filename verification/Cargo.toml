[package]
name = "change_capture"
version = "0.1.0"
edition = "2021"
publish = false

[dependencies]
base64 = "=0.23.1"
rusqlite = { version = "=0.40.2", features = ["bundled", "hooks"] }
serde_json = "=1.0.151"
uuid = { version = "=1.27.0", features = ["v4"] }
