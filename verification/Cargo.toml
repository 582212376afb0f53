[package]
name = "pg_anims"
version = "0.1.0"
edition = "2021"
publish = false

[dependencies]
bevy = { version = "*", default-features = false, features = ["bevy_animation"] }
