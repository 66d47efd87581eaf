[package]
name = "package_galaxy"
version = "0.1.0"
edition = "2021"
publish = false

[dependencies]
alpm = "=5.0.2"
axum = "=0.8.9"
axum-embed = "=0.1.0"
opener = "=0.9.0"
rust-embed = "=8.13.0"
serde = { version = "=1.0.229", features = ["derive"] }
tokio = { version = "=1.54.1", features = ["macros", "rt-multi-thread", "net"] }
