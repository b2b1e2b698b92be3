[package]
name = "nextgen"
version = "0.1.0"
edition = "2021"
publish = false

[dependencies]
bevy = { version = "=0.10.1", default-features = false, features = ["bevy_asset", "bevy_core_pipeline", "bevy_pbr", "bevy_render"] }
bevy_flycam = "=0.10.1"
bevy-inspector-egui = "0.18"
bytemuck = { version = "=1.25.2", features = ["derive"] }
futures = "=0.3.34"
futures-intrusive = "=0.5.0"
image = { version = "=0.24.9", default-features = false, features = ["png", "jpeg"] }
nalgebra = "=0.32.6"
renderdoc = "=0.11.0"
serde = { version = "=1.0.229", features = ["derive"] }
serde_json = "=1.0.154"
wgpu = "=0.15.1"
