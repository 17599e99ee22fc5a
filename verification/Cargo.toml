[package]
name = "raytracer"
version = "0.1.0"
edition = "2021"
publish = false

[dependencies]
float-cmp = "*"
image = "0.24"
rand = "0.8"
