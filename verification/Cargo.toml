[package]
name = "dirclip"
version = "0.1.0"
edition = "2021"
publish = false

[dependencies]
anyhow = "*"
clap = { version = "*", features = ["derive"] }
clipboard = "*"
gitignore = "*"
glob = "*"
walkdir = "*"
