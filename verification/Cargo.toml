[package]
name = "monperf"
version = "0.1.0"
edition = "2021"
publish = false

[dependencies]
chrono = "*"
libc = "*"
clap = { version = "*", features = ["derive"] }
anyhow = "*"
serde = { version = "*", features = ["derive"] }
serde_json = "*"
