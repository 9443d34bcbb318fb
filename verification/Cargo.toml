[package]
name = "weibo_archive"
version = "0.1.0"
edition = "2021"
publish = false

[dependencies]
url = "=2.5.8"
anyhow = "*"
clap = { version = "*", features = ["derive"] }
futures = "*"
reqwest = { version = "*", default-features = false, features = ["json", "query"] }
serde = { version = "*", features = ["derive"] }
tokio = { version = "*", features = ["macros", "rt-multi-thread", "fs", "process", "io-util"] }
