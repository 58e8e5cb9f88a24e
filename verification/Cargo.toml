[package]
name = "rust_gcode"
version = "0.1.0"
edition = "2021"
publish = false

[dependencies]
image = "0.24"
json = "0.12"
rayon = "1"

[dev-dependencies]
rand = "0.8"
