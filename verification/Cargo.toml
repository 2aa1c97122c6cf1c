[package]
name = "superui_flair"
version = "0.1.0"
edition = "2021"
publish = false

[dependencies]
cssparser = "=0.35.0"
bevy_math = "=0.19.1"
linked-hash-map = "0.5"
