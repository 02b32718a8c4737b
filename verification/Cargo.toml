[package]
name = "soundcheck"
version = "0.1.0"
edition = "2021"
publish = false

[dependencies]
clap = { version = "4", features = ["derive"] }
cpal = "0.15"
crossterm = "0.28"
dialoguer = "0.11"
ratatui = "0.28"
tokio = { version = "1", features = ["full"] }
