[package]
name = "balls_game"
version = "0.1.0"
edition = "2021"
publish = false

[dependencies]
ggez = { version = "0.8", default-features = false }
rand = "0.8"
