[package]
name = "music_cleaner"
version = "0.1.0"
edition = "2021"
publish = false

[dependencies]
lofty = "=0.18.2"
image = "=0.24.9"
image-meta = "=0.1.4"
clap = { version = "=4.6.7", features = ["derive"] }
colored = "=3.1.1"
walkdir = "=2.5.0"
tempfile = "=3.27.0"
zip = "=8.6.0"
zip-extensions = "=0.14.1"
unrar = "=0.5.8"
