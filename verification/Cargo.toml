[package]
name = "focus_chat"
version = "0.1.0"
edition = "2021"
publish = false

[dependencies]
anyhow = "=1.0.104"
chrono = "=0.4.45"
dirs = "=5.0.1"
either = "=1.19.0"
endpoints = "=0.38.0"
futures = "=0.3.34"
hf-hub = { version = "0.4", default-features = false, features = ["tokio"] }
once_cell = "=1.21.4"
serde = { version = "=1.0.229", features = ["derive"] }
serde_json = "=1.0.154"
spacetimedb = "=1.12.0"
tokio = { version = "=1.54.1", features = ["sync", "rt", "macros", "fs"] }
uuid = { version = "=1.29.1", features = ["v4"] }
