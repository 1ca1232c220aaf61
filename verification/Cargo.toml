[package]
name = "krakenctl"
version = "0.1.0"
edition = "2021"
publish = false

[dependencies]
rand = "*"
chrono = "*"
unicode-segmentation = "*"
rusb = "*"
image = "*"
imageproc = "*"
ab_glyph = "*"
clap = { version = "*", features = ["derive"] }
dirs = "*"
signal-hook = "*"
systemstat = "*"
