[package]
name = "geochat"
version = "0.1.0"
edition = "2021"
publish = false

[dependencies]
pbkdf2 = "=0.3.0"
ws = "=0.9.2"
serde = { version = "=1.0.229", features = ["derive"] }
serde_json = "=1.0.151"
crossbeam = "=0.8.5"
parking_lot = "=0.12.5"
