[package]
name = "agent_kernel"
version = "0.1.0"
edition = "2021"
publish = false

[dependencies]
serde = { version = "1", features = ["derive"] }
serde_json = "1"
serde_yaml = "0.9"
toml = "0.8"
crossbeam-channel = "0.5"
crossterm = "0.28"
ratatui = "0.29"
pulldown-cmark = "0.13"
unicode-width = "0.2"
ureq = "3"

[dev-dependencies]
tempfile = "3"
