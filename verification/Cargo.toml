[package]
name = "orderbook_aggregator"
version = "0.1.0"
edition = "2021"
publish = false

[dependencies]
anyhow = "1"
clap = { version = "4", features = ["derive"] }
env_logger = "0.10"
log = "0.4"
parking_lot = "0.12"
prost = "0.11"
serde = { version = "1", features = ["derive"] }
serde_json = "1"
tokio = { version = "1", features = ["macros", "rt-multi-thread"] }
tonic = "0.9"
tungstenite = { version = "0.19", features = ["native-tls"] }
url = "2"
