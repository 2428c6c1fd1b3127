[package]
name = "backtest"
version = "0.1.0"
edition = "2021"
publish = false

[dependencies]
chrono = "0.4"
csv = "1"
indicatif = "0.17"
serde = { version = "1", features = ["derive"] }
serde_json = "1"
