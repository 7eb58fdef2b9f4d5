[package]
name = "bevy_uspsa"
version = "0.1.0"
edition = "2021"
publish = false

[dependencies]
rand = "=0.8.8"
bevy = { version = "=0.17.3", default-features = false, features = ["bevy_audio", "wav", "bevy_pbr", "bevy_sprite", "bevy_text", "default_font"] }
