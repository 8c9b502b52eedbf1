[package]
name = "store_clients"
version = "0.1.0"
edition = "2021"
publish = false

[dependencies]
serde_json = "=1.0.151"
serde = "=1.0.229"
anyhow = "=1.0.104"
futures-util = "=0.3.34"
mongodb = "=2.8.2"
redis = { version = "=0.23.5", features = ["tokio-comp"] }
