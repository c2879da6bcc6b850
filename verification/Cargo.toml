[package]
name = "earclip"
version = "0.1.0"
edition = "2021"

[dependencies]
raylib = { version = "=6.0.0", features = ["SUPPORT_IMAGE_GENERATION"] }
