[package]
name = "photoweb"
version = "0.1.0"
edition = "2021"
publish = false

[dependencies]
regex = "=1.13.1"
csv = "=1.4.0"
serde = { version = "=1.0.229", features = ["derive"] }
kamadak-exif = "=0.5.5"
image = { version = "=0.25.10", default-features = false, features = ["jpeg", "png", "tiff", "webp"] }
argparse = "=0.2.2"
walkdir = "=2.5.0"
