[package]
name = "farm_plugins"
version = "0.1.0"
edition = "2021"
publish = false

[dependencies]
glob = "0.3"
serde = { version = "1", features = ["derive"] }
serde_json = "1"
indicatif = "0.17"
