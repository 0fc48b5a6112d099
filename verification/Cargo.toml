[package]
name = "limb_ik"
version = "0.1.0"
edition = "2021"
publish = false

[dependencies]
bevy = { version = "=0.11.3", default-features = false }
gltf = "1"
rand = { version = "=0.8.8", features = ["small_rng"] }
