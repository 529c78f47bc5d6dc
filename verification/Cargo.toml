[package]
name = "raytracer"
version = "0.1.0"
edition = "2021"
publish = false

[dependencies]

[dev-dependencies]
rand_core = "*"
rand_pcg = "*"
rand_xoshiro = "*"
