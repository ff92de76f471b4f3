[package]
name = "rugit"
version = "0.1.0"
edition = "2021"
publish = false

[dependencies]
anyhow = "1"
clap = { version = "4", features = ["derive"] }
crossterm = "0.28"
git2 = { version = "0.19", default-features = false }
ratatui = "0.29"
serde = { version = "1", features = ["derive"] }
toml = "0.8"
tui-textarea = "0.7"
unicode-width = "0.2"
