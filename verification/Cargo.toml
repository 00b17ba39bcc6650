[package]
name = "douglas"
version = "0.1.0"
edition = "2021"
publish = false

[dependencies]
serde = { version = "=1.0.229", features = ["derive"] }
serde_json = "=1.0.154"
serde_yaml_ng = "=0.10.0"
sha2 = "=0.10.9"
thiserror = "=2.0.21"
tokio-util = { version = "0.7", features = ["codec"] }
toml = "=0.9.12"
