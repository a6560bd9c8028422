[package]
name = "img2a"
version = "0.1.0"
edition = "2021"
publish = false

[dependencies]
colored = "*"
image = { version = "*", default-features = false, features = ["png", "jpeg", "gif", "bmp"] }
terminal_size = "*"
