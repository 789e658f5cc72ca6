[package]
name = "canopen-core"
version = "0.1.0"
edition = "2021"
publish = false

[dependencies]
embedded-can = "0.4"
heapless = "0.8"
serde = { version = "1", features = ["derive"] }
serde_json = "1"
socketcan = "3"
embassy-futures = "0.1"
embassy-sync = "*"
embassy-time = "*"
