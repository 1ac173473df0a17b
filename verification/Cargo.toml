[package]
name = "galerie_montsouris"
version = "0.1.0"
edition = "2021"
publish = false

[dependencies]
anyhow = "1"
arboard = "3"
base64 = "0.22"
clap = { version = "4", features = ["derive"] }
crossbeam-channel = "0.5"
dirs = "6"
eframe = { version = "0.31", default-features = false, features = ["default_fonts", "glow", "x11", "wayland"] }
egui = "0.31"
env_logger = "0.11"
image = { version = "0.25", default-features = false, features = ["jpeg", "png", "tiff", "webp"] }
kamadak-exif = "0.6"
log = "0.4"
lru = "0.12"
rayon = "1"
seahash = "4"
serde = { version = "1", features = ["derive"] }
serde_json = "1"
tempfile = "3"
toml = "0.8"
