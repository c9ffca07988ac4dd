[package]
name = "avif_serialize"
version = "0.1.0"
edition = "2021"
publish = false

[dependencies]

[dev-dependencies]
mp4parse = "*"
avif-parse = "*"
