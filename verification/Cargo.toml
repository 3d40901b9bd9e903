[package]
name = "karukan"
version = "0.1.0"
edition = "2021"
publish = false

[dependencies]
anyhow = "1"
directories = "*"
serde = { version = "1", features = ["derive"] }
toml = "*"
tracing = "0.1"
