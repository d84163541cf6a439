[package]
name = "retention"
version = "0.1.0"
edition = "2021"
publish = false

[dependencies]
anyhow = "1"
chrono = "0.4"
clap = { version = "3", features = ["derive"] }
fs2 = "0.4"
regex = "1"
tokio = { version = "1", features = ["macros", "rt-multi-thread"] }
