[package]
name = "movement_core"
version = "0.1.0"
edition = "2021"
publish = false

[dependencies]
bevy = { version = "0.15", default-features = false, features = ["bevy_pbr", "bevy_gizmos", "bevy_window"] }
bevy_rapier3d = { version = "0.28", default-features = false, features = ["dim3", "debug-render-3d"] }
