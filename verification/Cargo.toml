[package]
name = "base_framework"
version = "0.1.0"
edition = "2021"
publish = false

[dependencies]
chrono = "0.4"
clap = { version = "4", features = ["derive"] }
crossbeam-channel = "0.5"
libloading = "0.8"
log = "0.4"
parking_lot = "0.12"
rusqlite = { version = "*", features = ["bundled"] }
thiserror = "1"

[dev-dependencies]
tempfile = "3"
