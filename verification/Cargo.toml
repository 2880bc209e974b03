[package]
name = "poise_i18n"
version = "0.1.0"
edition = "2021"
publish = false

[dependencies]
itertools = "=0.15.0"
rusty18n = { version = "=0.1.9", features = ["bevy_reflect"] }
bevy_reflect = "=0.12.1"
poise = "=0.6.2"
strum = { version = "=0.28.0", features = ["derive"] }
