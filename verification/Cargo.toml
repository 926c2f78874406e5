[package]
name = "auto_cursor"
version = "0.1.0"
edition = "2021"
publish = false

[dependencies]
regex = "1"
serde_json = "1"
chrono = "0.4"
encoding_rs = "0.8"
rand = "0.8"
serde = { version = "1", features = ["derive"] }
dirs = "5"
rusqlite = { version = "0.31", features = ["bundled"] }
flate2 = "1"
tar = "0.4"
uuid = { version = "1", features = ["v4"] }
fs2 = "0.4"
base64 = "0.22"
anyhow = "1"
once_cell = "1"
urlencoding = "2"
