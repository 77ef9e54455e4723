[package]
name = "dshtui"
version = "0.1.0"
edition = "2021"
publish = false

[dependencies]
serde = { version = "=1.0.229", features = ["derive"] }
serde_json = "=1.0.154"
toml = "=0.8.23"
nucleo = "=0.5.0"
thiserror = "=1.0.69"
crossterm = "=0.28.1"
tracing = "=0.1.44"
tracing-subscriber = { version = "=0.3.23", features = ["env-filter"] }
tracing-appender = "=0.2.5"
tokio = { version = "=1.54.1", features = ["rt-multi-thread", "macros", "sync", "time"] }
arboard = { version = "=3.7.0", default-features = false }
open = "=5.4.5"
ratatui = "=0.29.0"
