[package]
name = "chip8_rust"
version = "0.1.0"
edition = "2021"
publish = false

[dependencies]
rand = "0.8"
wgpu = { version = "0.13", default-features = false }
winit = { version = "0.27", default-features = false, features = ["x11"] }
pollster = "0.3"
clap = { version = "4", features = ["derive"] }
env_logger = { version = "0.9", default-features = false }
log = "0.4"
once_cell = "1"
bytemuck = { version = "1", features = ["derive"] }
rodio = { version = "0.14", default-features = false }
