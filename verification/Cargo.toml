[package]
name = "drop_copy"
version = "0.1.0"
edition = "2021"
publish = false

[dependencies]
clap = "*"
quickfix = "*"
serde = { version = "1", features = ["derive"] }
serde_yaml = "*"
