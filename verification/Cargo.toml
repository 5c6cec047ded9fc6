[package]
name = "shader_jockey"
version = "0.1.0"
edition = "2021"
publish = false

[dependencies]
gl = "*"
sdl2 = "*"
notify = "*"
