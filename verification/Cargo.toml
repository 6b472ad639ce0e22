[package]
name = "mmk"
version = "0.1.0"
edition = "2021"
publish = false

[dependencies]
x11rb = "0.9"
x11 = { version = "2", features = ["xlib"] }
