[package]
name = "ded"
version = "0.1.0"
edition = "2021"
publish = false

[dependencies]
anyhow = "1"
arboard = { version = "3", default-features = false }
crossterm = "0.28"
ratatui = "0.29"
regex = "1"
unicode-width = "0.2"
