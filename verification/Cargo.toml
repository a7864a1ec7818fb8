[package]
name = "can-utils-rs"
version = "0.5.0"
edition = "2021"
publish = false

[dependencies]
anyhow = "1"
crossterm = "0.28"
inquire = "0.7"
owo-colors = "4"
ratatui = "0.29"
socketcan = { version = "3", default-features = false }
