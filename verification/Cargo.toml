[package]
name = "wobl"
version = "0.1.0"
edition = "2021"
publish = false

[dependencies]
crossterm = "*"
device_query = "*"
sdl2 = { version = "*", features = ["ttf"] }
