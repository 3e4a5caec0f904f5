[package]
name = "creepy"
version = "1.0.0"
edition = "2021"
publish = false

[dependencies]
url = "2"
regex = "1"
scraper = "*"
reqwest = { version = "0.12", features = ["blocking"] }
rayon = "1"
clap = "4"
serde = { version = "1", features = ["derive"] }
serde_regex = "1"
toml = "*"
