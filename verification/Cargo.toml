[package]
name = "modbus_toolbox"
version = "0.1.0"
edition = "2021"
publish = false

[dependencies]
anyhow = "1"
clap = { version = "4", features = ["derive"] }
crossterm = { version = "0.28", features = ["event-stream"] }
futures = "0.3"
rand = "0.9"
ratatui = "0.29"
rust-i18n = "3"
serde = { version = "1", features = ["derive"] }
serde_json = "1"
tokio = { version = "1", features = ["full"] }
tokio-modbus = { version = "0.16", features = ["tcp", "rtu", "tcp-server", "rtu-server"] }
tokio-serial = "5"
toml = "0.8"
