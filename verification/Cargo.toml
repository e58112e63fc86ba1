[package]
name = "vacuum"
version = "0.1.0"
edition = "2021"
publish = false

[dependencies]
anyhow = "1"
bytesize = "1"
clap = { version = "4", features = ["derive"] }
clap_complete = "4"
crossterm = "0.28"
ignore = "0.4"
indicatif = "0.17"
owo-colors = { version = "4", features = ["supports-colors"] }
ratatui = "0.29"
walkdir = "2"

[dev-dependencies]
tempfile = "3"
