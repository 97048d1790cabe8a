[package]
name = "omnipaxos_kv"
version = "0.1.0"
edition = "2021"
publish = false

[dependencies]
axum = "0.7"
config = { version = "0.15", default-features = false, features = ["toml"] }
env_logger = "0.11"
futures = "0.3"
log = "0.4"
rand = "0.8"
reqwest = { version = "0.12", default-features = false, features = ["json"] }
serde = { version = "1", features = ["derive"] }
serde_json = "1"
tokio = { version = "1", features = ["io-util", "macros", "net", "rt-multi-thread", "sync", "time"] }
