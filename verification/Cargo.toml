[package]
name = "rolodex"
version = "0.1.0"
edition = "2021"
publish = false

[dependencies]
clap = { version = "4", features = ["derive"] }
crossterm = "*"
directories = "*"
fuzzy-matcher = "0.3"
names = { version = "*", default-features = false }
rand = "0.9"
ratatui = "*"
rusqlite = { version = "*", features = ["bundled"] }
serde = { version = "1", features = ["derive"] }
serde_json = "1"
thiserror = "*"
toml = "*"
tracing = "0.1"
tracing-subscriber = "0.3"
