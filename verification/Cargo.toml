[package]
name = "hexrust"
version = "0.5.3"
edition = "2021"
publish = false

[dependencies]
anyhow = "1"
dirs = "5"
gtk4 = "0.9"
native-tls = "0.2"
serde = { version = "1", features = ["derive"] }
time = { version = "0.3", features = ["formatting", "local-offset"] }
tokio = { version = "1", features = ["full"] }
tokio-native-tls = "0.3"
toml = "0.8"
