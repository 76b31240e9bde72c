[package]
name = "collurgy"
version = "0.1.0"
edition = "2021"

[dependencies]
colcon = "=0.8.1"
eframe = { version = "0.23", default-features = false, features = ["default_fonts", "glow"] }
rfd = "=0.14.1"
serde = { version = "=1.0.229", features = ["derive"] }
serde_json = "=1.0.154"
toml = "=0.8.23"
