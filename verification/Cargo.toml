[package]
name = "package_assistant"
version = "0.1.0"
edition = "2021"
publish = false

[dependencies]
quick-xml = "*"
rpm = "*"
clap = { version = "*", features = ["derive"] }
serde = { version = "*", features = ["derive"] }
toml = "*"
