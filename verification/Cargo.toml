[package]
name = "media_index"
version = "0.1.0"
edition = "2021"
publish = false

[dependencies]
ring = "*"
data-encoding = "*"
mime_guess = "*"
walkdir = "*"
