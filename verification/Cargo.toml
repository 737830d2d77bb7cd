[package]
name = "tpbackup"
version = "0.1.0"
edition = "2021"
publish = false

[dependencies]
base64 = "*"
clap = { version = "*", features = ["derive", "env"] }
tokio = { version = "*", features = ["rt-multi-thread", "macros", "sync", "fs", "io-util", "io-std", "time"] }
reqwest = { version = "*", default-features = false, features = ["json"] }
serde = { version = "*", features = ["derive"] }
serde_json = "*"
url = "*"
indicatif = "*"
tracing = "*"
tracing-subscriber = { version = "*", features = ["env-filter", "json"] }
chrono = "*"
flate2 = "*"
tar = "*"
