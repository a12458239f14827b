[package]
name = "unicode_player"
version = "0.1.0"
edition = "2021"
publish = false

[dependencies]
image = "*"
unicode-width = "*"
unicode-segmentation = "*"
urlencoding = "*"
clap = { version = "*", features = ["derive"] }
crossterm = "*"
termion = "*"
reqwest = { version = "*", default-features = false, features = ["blocking"] }
scraper = "*"
serde_json = "*"
lazy_static = "*"
