[package]
name = "api2cli"
version = "0.1.0"
edition = "2021"
publish = false

[dependencies]
serde_json = "=1.0.154"
serde_yaml = "=0.9.34"
indexmap = "=2.14.2"
clap = { version = "=4.6.7", features = ["derive", "env", "string"] }
colored = "=2.2.0"
reqwest = { version = "=0.12.28", default-features = false, features = ["blocking", "rustls-tls"] }
thiserror = "=1.0.69"
anyhow = "=1.0.104"
