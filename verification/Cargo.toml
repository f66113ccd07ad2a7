[package]
name = "render_engine"
version = "0.1.0"
edition = "2021"
publish = false

[dependencies]
bytemuck = "=1.25.2"
softbuffer = "=0.4.8"
winit = "=0.30.13"
