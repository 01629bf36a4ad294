[package]
name = "serframe"
version = "0.1.0"
edition = "2021"
publish = false

[dependencies]
hex = "*"
chrono = "*"
anyhow = "*"
serialport = { version = "*", default-features = false }
crossterm = "*"
ratatui = "*"
