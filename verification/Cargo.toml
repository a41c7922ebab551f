[package]
name = "gears"
version = "0.1.0"
edition = "2021"
publish = false

[dependencies]
idsp = { version = "=0.23.0", default-features = false }
macroquad = "=0.4.16"
