[package]
name = "bdf_to_image"
version = "0.1.0"
edition = "2021"
publish = false

[dependencies]
anyhow = "1"
bdf = "0.4.0"
image = "*"
