[package]
name = "basedtyper"
version = "0.1.0"
edition = "2021"
publish = false

[dependencies]
rand = "0.8"
serde = { version = "1", features = ["derive"] }
serde_json = "1"
toml = "0.5"
tokio = { version = "1", features = ["full"] }
tui = "0.19"
crossterm = "0.25"
ureq = "2"
