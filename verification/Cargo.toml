[package]
name = "worksheet"
version = "0.1.0"
edition = "2021"
publish = false

[dependencies]
rand = "=0.9.5"
tempfile = "3"
image = { version = "=0.25.10", default-features = false }
pdfium-render = "=0.8.37"
rfd = "=0.15.4"
eframe = { version = "=0.31.1", default-features = false, features = ["default_fonts", "glow", "x11"] }
