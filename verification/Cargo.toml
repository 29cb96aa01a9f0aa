[package]
name = "hive"
version = "0.1.0"
edition = "2021"
publish = false

[dependencies]
sha2 = "=0.10.9"
hmac = "=0.12.1"
hex = "=0.4.3"
serde = { version = "=1.0.229", features = ["derive"] }
serde_json = "=1.0.154"
toml = "=0.8.23"
chrono = { version = "=0.4.45", default-features = false, features = ["alloc"] }
http = "=1.5.0"
serde_yml = "=0.0.13"
base64 = "=0.22.1"
dashmap = "6"
