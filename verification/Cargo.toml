[package]
name = "allvu"
version = "0.1.0"
edition = "2021"
rust-version = "1.95"
publish = false

[dependencies]
rand = "=0.9.5"
tokio = { version = "=1.54.1", features = ["full"] }
anyhow = "=1.0.104"
serde = { version = "=1.0.229", features = ["derive"] }
serde_json = "=1.0.154"
toml = "=0.8.23"
text_io = "=0.1.13"
aggligator-transport-tcp = { version = "=0.2.5", default-features = false }
