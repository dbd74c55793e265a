[package]
name = "danger_engine"
version = "0.1.0"
edition = "2021"
publish = false

[dependencies]
bevy = { version = "0.11", default-features = false }
big-brain = { version = "0.18" }
bevy_turborand = { version = "0.6" }
