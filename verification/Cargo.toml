[package]
name = "ring_bounce"
version = "0.1.0"
edition = "2021"
publish = false

[dependencies]
rand = "0.8"
bevy = { version = "*", default-features = false }
bevy_rapier2d = { version = "*", default-features = false, features = ["dim2"] }
