[package]
name = "minefred"
version = "0.1.0"
edition = "2021"
publish = false

[dependencies]
eyre = "0.6"
hecs = "0.10"
rand = "0.9"
sdl2 = { version = "*", features = ["ttf"] }
serde_json = "1"
unicode-segmentation = "1"
