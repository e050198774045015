[package]
name = "oxide8"
version = "0.1.0"
edition = "2021"
publish = false

[dependencies]
anyhow = "1"
clap = { version = "4", features = ["derive"] }
crossterm = "0.28"
minifb = "*"
rand = "0.8"
ratatui = "*"
