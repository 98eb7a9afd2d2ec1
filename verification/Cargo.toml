[package]
name = "pphysx3d"
version = "0.1.0"
edition = "2021"
publish = false

[dependencies]
kiss3d = "0.31"
