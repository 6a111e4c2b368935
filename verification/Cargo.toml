[package]
name = "play"
version = "0.1.0"
edition = "2021"
publish = false

[dependencies]
anyhow = "1"
clap = "4"
dirs = "*"
ignore = "0.4"
memorable-wordlist = "*"
serde = { version = "1", features = ["derive"] }
serde_json = "1"
