[package]
name = "jjview"
version = "0.1.0"
edition = "2021"
publish = false

[dependencies]
ansi-to-tui = "7"
anyhow = "1"
clap = { version = "4", features = ["derive"] }
crossterm = "0.28"
ratatui = "0.29"
which = "7"
