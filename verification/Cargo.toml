[package]
name = "file_utility"
version = "1.0.0"
edition = "2021"
publish = false

[dependencies]
anyhow = "1"
chrono = "0.4"
clap = { version = "4", features = ["derive"] }
csv = "1"
flate2 = "1"
ignore = "0.4"
regex = "1"
serde_json = "1"
tar = "0.4"
termcolor = "1"
walkdir = "2"
zip = { version = "0.6", default-features = false, features = ["deflate"] }
