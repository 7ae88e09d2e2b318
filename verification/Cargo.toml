[package]
name = "ebook_organiser"
version = "0.1.0"
edition = "2021"
publish = false

[dependencies]
clap = { version = "*", features = ["derive"] }
dirs = "*"
epub = "*"
mobi = "*"
mp4ameta = "*"
serde = { version = "*", features = ["derive"] }
toml = "*"
