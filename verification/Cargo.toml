[package]
name = "cybernodes"
version = "0.1.0"
edition = "2021"
publish = false

[dependencies]
hexx = "=0.18.0"
rand = "=0.8.8"

[dev-dependencies]
glam = "=0.27.0"
