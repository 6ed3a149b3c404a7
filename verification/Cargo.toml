[package]
name = "wizrad_terrain"
version = "0.1.0"
edition = "2021"
publish = false

[dependencies]
glutin = "0.29"

[dev-dependencies]
ordered-float = "3"
