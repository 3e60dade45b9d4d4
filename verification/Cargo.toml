[package]
name = "termsheet"
version = "0.1.0"
edition = "2021"
publish = false

[dependencies]
crossterm = { version = "*", features = ["osc52"] }
ratatui = "*"
