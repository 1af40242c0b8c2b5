[package]
name = "tibia_formats"
version = "0.1.0"
edition = "2021"
publish = false

[dependencies]
byteorder = "1"
encoding = "0.2"
vec_map = "0.8"
serde = { version = "1", features = ["derive"] }
toml = "0.5"
glium = "0.29"
cgmath = "0.17"
lru-cache = "0.1"
