[package]
name = "mouse_term"
version = "0.1.0"
edition = "2021"
publish = false

[dependencies]
anyhow = "1"
chrono = "0.4"
crossterm = "0.27"
dirs = "5"
ratatui = "0.26"
serde = { version = "1", features = ["derive"] }
serde_json = "1"
thiserror = "1"
unicode-width = "0.1"
