[package]
name = "boyar_tournament"
version = "0.1.0"
edition = "2021"
publish = false

[dependencies]
bevy = { version = "0.15", default-features = false }
bevy_quinnet = "0.12"
rand = "0.8"
serde = { version = "1", features = ["derive"] }
