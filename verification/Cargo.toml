[package]
name = "cron_manager"
version = "0.1.0"
edition = "2021"
publish = false

[dependencies]
anyhow = "*"
crossterm = "*"
dirs = "*"
ratatui = "*"
tempfile = "*"
uuid = { version = "*", features = ["v5"] }
