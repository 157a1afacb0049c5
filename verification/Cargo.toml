[package]
name = "tiling_gallery"
version = "0.1.0"
edition = "2021"
publish = false

[dependencies]
clap = { version = "4", features = ["derive"] }
csscolorparser = "*"
plotters = { version = "0.3", default-features = false, features = ["svg_backend"] }
rand = "0.9"
svg = "*"
