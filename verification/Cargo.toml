[package]
name = "vaultship"
version = "0.1.0"
edition = "2021"
publish = false

[dependencies]
aes-gcm = "=0.10.3"
sha2 = "=0.10.9"
base64 = "=0.22.1"
ed25519-dalek = "=2.2.0"
rand = "=0.8.8"
chrono = { version = "=0.4.45", features = ["serde"] }
uuid = { version = "=1.29.0", features = ["v4", "serde"] }
blake3 = "=1.8.7"
serde = { version = "=1.0.229", features = ["derive"] }
serde_json = "=1.0.154"
serde_yaml = "0.9.34"
toml = "=0.8.23"
anyhow = "=1.0.104"
clap = { version = "=4.6.7", features = ["derive"] }
tokio = { version = "=1.54.1", features = ["macros", "rt-multi-thread"] }
reqwest = { version = "=0.12.28", default-features = false, features = ["json", "rustls-tls"] }
hostname = "=0.4.2"
mac_address = "=1.2.1"
sysinfo = "=0.40.1"
tracing = "=0.1.44"
tracing-subscriber = "=0.3.23"
bollard = "0.18"
futures-util = "=0.3.34"
