[package]
name = "er_controls"
version = "0.1.0"
edition = "2021"
publish = false

[dependencies]
anyhow = "1"
device_query = "*"
keyboard-types = "*"
rdev = "*"
serde = { version = "1", features = ["derive"] }
toml = "*"
willhook = "*"
