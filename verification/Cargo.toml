[package]
name = "vide"
version = "0.1.0"
edition = "2021"
publish = false

[dependencies]
bytemuck = { version = "=1.25.2", features = ["derive"] }
cgmath = "=0.18.0"
objc2 = { version = "=0.6.5", features = ["exception"] }
objc2-av-foundation = "=0.3.2"
objc2-core-foundation = "=0.3.2"
objc2-core-media = "=0.3.2"
objc2-core-video = "=0.3.2"
objc2-foundation = "=0.3.2"
wgpu = "=23.0.1"
winit = { version = "=0.30.13", default-features = false, features = ["rwh_06", "wayland", "wayland-dlopen"] }
