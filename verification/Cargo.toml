[package]
name = "openstory_console"
version = "0.1.0"
edition = "2021"
publish = false

[dependencies]
serde = { version = "1", features = ["derive"] }
serde_json = "1"
crossterm = "0.28"
ratatui = "0.29"
tokio = { version = "1", features = ["full"] }
chrono = "0.4"
unicode-width = "0.2"
