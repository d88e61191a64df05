[package]
name = "omakure"
version = "0.1.0"
edition = "2021"
publish = false

[dependencies]
rusqlite = { version = "*", features = ["bundled"] }
ratatui = "0.29"
crossterm = "0.28"
