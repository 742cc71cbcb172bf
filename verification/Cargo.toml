[package]
name = "ocr_jobs"
version = "0.1.0"
edition = "2021"
publish = false

[dependencies]
uuid = { version = "1", features = ["v4"] }
serde = { version = "1", features = ["derive"] }
serde_json = "1"
log = "0.4"
tauri = { version = "2", default-features = false }
tauri-plugin-log = { version = "2", default-features = false }
