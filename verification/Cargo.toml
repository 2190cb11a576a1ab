[package]
name = "solar_raster"
version = "0.1.0"
edition = "2021"
publish = false

[dependencies]
nalgebra-glm = "0.18"
minifb = "0.27"
