[package]
name = "snake3d"
version = "0.1.0"
edition = "2021"
publish = false

[dependencies]
macroquad = { version = "0.4", default-features = false }
quad-rand = "0.2"
