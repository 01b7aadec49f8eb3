[package]
name = "asteroids"
version = "0.1.0"
edition = "2021"
publish = false

[dependencies]
rand = "0.8"
cgmath = "0.18"
rayon = "1"
bytemuck = { version = "1", features = ["derive"] }
winit = "0.26"
env_logger = "0.9"
anyhow = "1"
