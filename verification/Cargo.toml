[package]
name = "kodama"
version = "0.1.0"
edition = "2021"
publish = false

[dependencies]
htmlize = { version = "1", features = ["unescape"] }
pulldown-cmark = "*"
clap = { version = "4", features = ["derive"] }
eyre = "0.6"
serde = { version = "1", features = ["derive"] }
serde_json = "1"
toml = "*"
