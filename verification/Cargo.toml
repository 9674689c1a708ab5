[package]
name = "dag_ledger"
version = "0.1.0"
edition = "2021"
publish = false

[dependencies]
ring = "=0.17.14"
sha2 = "=0.10.9"
uuid = { version = "=1.27.0", features = ["v4"] }
serde = { version = "=1.0.229", features = ["derive"] }
serde_json = "=1.0.151"
