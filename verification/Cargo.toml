[package]
name = "terrain_lod"
version = "0.1.0"
edition = "2021"
publish = false

[dependencies]
png = "*"
nalgebra = "*"
serde = { version = "*", features = ["derive"] }
serde_json = "*"
