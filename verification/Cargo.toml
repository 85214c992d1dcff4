[package]
name = "fast_image_resize"
version = "0.1.0"
edition = "2021"
publish = false

[dependencies]
num-traits = "0.2"
once_cell = "1"
thiserror = "1"
cfg-if = "1"
