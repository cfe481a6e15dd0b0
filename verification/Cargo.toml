[package]
name = "ledger_core"
version = "0.1.0"
edition = "2021"
publish = false

[dependencies]
anyhow = "1"
rand = "0.8"
serde = { version = "1", features = ["derive"] }
serde_json = "1"
snarkvm-utilities = "*"

[dev-dependencies]
bincode = "1"
chrono = "0.4"
