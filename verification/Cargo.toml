[package]
name = "pre"
version = "0.1.0"
edition = "2021"
publish = false

[dependencies]
image = { version = "0.25", default-features = false, features = ["gif", "jpeg", "png", "bmp", "webp", "rayon"] }
term_size = "0.3"
rayon = "1"
ctrlc = "3"
