[package]
name = "chess_rules"
version = "0.1.0"
edition = "2021"
publish = false

[dependencies]
bevy = { version = "=0.5.0", default-features = false, features = ["render", "bevy_gltf", "bevy_wgpu", "bevy_winit", "png", "x11"] }
bevy_mod_picking = "=0.4.0"
rand = "=0.8.8"
wasm-bindgen-macro = "=0.2.69"
