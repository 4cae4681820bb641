[package]
name = "taskboard"
version = "0.1.0"
edition = "2021"
publish = false

[dependencies]
anyhow = "1"
base64 = "0.22"
directories = "5"
rusqlite = { version = "0.32", features = ["bundled"] }
serde_json = "1"
toml = "0.8"
uuid = { version = "1", features = ["v4"] }
