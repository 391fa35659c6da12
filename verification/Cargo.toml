[package]
name = "vendor_timers"
version = "0.1.0"
edition = "2021"
publish = false

[dependencies]
dirs = "6.0"
eframe = { version = "0.29", default-features = false, features = ["default_fonts", "glow", "persistence", "x11"] }
rfd = "0.15"
serde = { version = "1", features = ["derive"] }
serde_json = "1"
time = { version = "0.3", features = ["serde"] }
