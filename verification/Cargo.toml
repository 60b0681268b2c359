[package]
name = "app_compute"
version = "0.1.0"
edition = "2021"
publish = false

[dependencies]
bevy = { version = "=0.12.1", default-features = false }
wgpu = { version = "0.17", default-features = false, features = ["wgsl"] }
