[package]
name = "goodgame"
version = "0.1.0"
edition = "2021"
publish = false

[dependencies]
tar = "*"
zstd = "*"
serde = { version = "*", features = ["derive"] }
serde_json = "*"
clap = { version = "*", features = ["derive"] }
clap_complete = "*"
anyhow = "*"
