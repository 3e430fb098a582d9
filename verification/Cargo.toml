[package]
name = "slide_generator"
version = "0.1.0"
edition = "2021"
publish = false

[dependencies]
image = { version = "0.24", default-features = false, features = ["png"] }
rand = "0.8"
rusttype = "0.9"
font-kit = "0.14"
