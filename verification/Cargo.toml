[package]
name = "functional_game_engine"
version = "0.1.0"
edition = "2021"
publish = false

[dependencies]
anyhow = "=1.0.104"
bytemuck = { version = "=1.25.2", features = ["derive"] }
cgmath = "=0.18.0"
env_logger = { version = "=0.10.2", default-features = false }
image = { version = "0.24", default-features = false, features = ["png"] }
pollster = "=0.3.0"
wgpu = { version = "0.19", default-features = false, features = ["wgsl"] }
