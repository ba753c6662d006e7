[package]
name = "dubverse"
version = "0.1.0"
edition = "2021"
publish = false

[dependencies]
base64 = "*"
chrono = "*"
md5 = "*"
rand = "*"
reqwest = { version = "*", default-features = false, features = ["blocking", "json"] }
rusqlite = { version = "*", features = ["bundled"] }
serde = { version = "*", features = ["derive"] }
serde_json = "*"
urlencoding = "*"
uuid = { version = "*", features = ["v4"] }
