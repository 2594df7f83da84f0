[package]
name = "gltf_colliders"
version = "0.1.0"
edition = "2021"
publish = false

[dependencies]
serde_json = "*"
bevy_rapier3d = { version = "*", default-features = false, features = ["dim3"] }
