[package]
name = "cbxcore"
version = "0.1.0"
edition = "2021"
publish = false

[dependencies]
zip = "=8.6.0"
sevenz-rust = "=0.6.1"
image = "=0.25.10"
fast_image_resize = "=6.1.0"
unrar = "=0.5.8"
