[package]
name = "xray_core"
version = "0.1.0"
edition = "2021"

[dependencies]
freetype = "=0.8.0"
harfbuzz-sys = { version = "=0.8.0", features = ["bundled"] }
