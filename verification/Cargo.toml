[package]
name = "bad_apple"
version = "0.1.0"
edition = "2021"
publish = false

[dependencies]
clap = { version = "4", features = ["derive"] }
dirs = "6"
ratatui = "0.29"
rodio = "0.20"
unicode-width = "0.2"
