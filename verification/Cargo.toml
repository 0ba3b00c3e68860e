[package]
name = "disk_scan"
version = "0.1.0"
edition = "2021"
publish = false

[dependencies]
jwalk = "0.8"
parking_lot = "0.12"
rayon = "1"
serde = { version = "1", features = ["derive"] }
tauri = { version = "2", default-features = false }
uuid = { version = "1", features = ["v4"] }
