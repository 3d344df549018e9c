[package]
name = "patchvision"
version = "0.1.0"
edition = "2021"
publish = false

[dependencies]
anyhow = "=1.0.104"
colored = "=3.1.1"
grid = "=0.9.0"
serde = { version = "=1.0.229", features = ["derive"] }
serde_yaml = "=0.9.34"
