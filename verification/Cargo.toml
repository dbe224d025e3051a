[package]
name = "openapi_tui"
version = "0.1.0"
edition = "2021"
publish = false

[dependencies]
oas3 = "0.4"
ratatui = "0.26"
crossterm = "0.27"
tokio = { version = "1", features = ["sync"] }
color-eyre = "0.6"
