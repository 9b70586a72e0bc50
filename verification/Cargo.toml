[package]
name = "dns_update"
version = "0.1.0"
edition = "2021"
publish = false

[dependencies]
tokio = { version = "1", features = ["rt-multi-thread", "macros", "sync", "time", "process"] }
hickory-client = { version = "=0.24.4", features = ["dnssec"] }
futures-util = "0.3"
bollard = "=0.21.1"
reqwest = { version = "0.12", default-features = false, features = ["json", "cookies"] }
serde = { version = "1", features = ["derive"] }
serde_json = "1"
