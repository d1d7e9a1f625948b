[package]
name = "bevy_diagnostic_visualizer"
version = "0.1.0"
edition = "2021"
publish = false

[dependencies]
bevy = { version = "0.9", default-features = false }
bevy_egui = { version = "0.18", default-features = false }
