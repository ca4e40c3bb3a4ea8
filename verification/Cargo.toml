[package]
name = "modal_input"
version = "0.1.0"
edition = "2021"
publish = false

[dependencies]
unicode-width = "*"
anyhow = "*"
futures = "*"
ratatui = { version = "*", default-features = false }
tokio = { version = "*", default-features = false, features = ["sync"] }
