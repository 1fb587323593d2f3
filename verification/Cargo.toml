[package]
name = "polysynth"
version = "0.1.0"
edition = "2021"
publish = false

[dependencies]
anyhow = "=1.0.104"
assert_no_alloc = "=1.1.2"
cpal = "0.15"
crossterm = "=0.28.1"
fundsp = "=0.20.0"
ratatui = "=0.29.0"
serde = { version = "1", features = ["derive"] }
serde_yaml = "0.9"
