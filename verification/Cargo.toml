[package]
name = "processor"
version = "0.1.0"
edition = "2021"
publish = false

[dependencies]
chrono = "*"
clap = { version = "*", features = ["derive"] }
csv = "*"
rand = "*"
serde = { version = "*", features = ["derive"] }
