[package]
name = "magic_core"
version = "0.1.0"
edition = "2021"
publish = false

[dependencies]
colored = "*"
eframe = { version = "*", default-features = false, features = ["glow", "default_fonts", "x11"] }
libloading = "*"
notify = "*"
