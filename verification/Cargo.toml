[package]
name = "apyr"
version = "0.1.0"
edition = "2021"
publish = false

[dependencies]
anyhow = "1"
better-panic = "0.3"
crossbeam = "0.8"
crossterm = "0.27"
ratatui = "0.26"
regex = "1"
signal-hook = "0.3"
