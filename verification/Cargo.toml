[package]
name = "cli_tui"
version = "0.1.0"
edition = "2021"
publish = false

[dependencies]
regex = "1"
ratatui = "0.27"
