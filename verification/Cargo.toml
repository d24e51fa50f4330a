[package]
name = "vai"
version = "0.1.0"
edition = "2021"
publish = false

[dependencies]
bincode = "1"
crossterm = "0.27"
dirs = "5"
fuzzy-matcher = "0.3"
serde = { version = "1", features = ["derive"] }
serde_json = "1"
thiserror = "1"
ureq = "2"
webbrowser = "0.8"
