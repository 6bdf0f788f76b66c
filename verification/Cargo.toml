[package]
name = "tappr"
version = "0.1.0"
edition = "2021"
publish = false

[dependencies]
serde = { version = "1", features = ["derive"] }
serde_json = "1"
tokio = { version = "1", features = ["full"] }
reqwest = { version = "0.12", default-features = false, features = ["json", "stream"] }
futures = "0.3"
rand = "0.8"
rodio = "0.19"
ssstretch = "*"
clap = { version = "4", features = ["derive"] }
crossterm = "0.28"
ratatui = "0.28"
dirs = "5"
parking_lot = "0.12"
thiserror = "1"
tracing = "0.1"
tracing-subscriber = { version = "0.3", features = ["env-filter"] }
urlencoding = "2"
