[package]
name = "raytracer"
version = "0.1.0"
edition = "2021"

[dependencies]
rand = "0.8"
image = { version = "0.25", default-features = false, features = ["jpeg", "png"] }
indicatif = "0.17"
