[package]
name = "watchr"
version = "0.1.0"
edition = "2021"
publish = false

[dependencies]
actix-files = "*"
actix-web = "*"
actix-ws = "*"
anyhow = "*"
awc = "*"
clap = { version = "*", features = ["derive"] }
dirs = "*"
env_logger = "*"
futures = "*"
log = "*"
reqwest = { version = "*", default-features = false, features = ["stream"] }
serde = { version = "*", features = ["derive"] }
serde_json = "*"
shellexpand = "*"
thiserror = "*"
tokio = { version = "*", features = ["rt", "macros", "io-util", "net", "time", "fs"] }
