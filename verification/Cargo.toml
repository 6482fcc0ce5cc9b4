[package]
name = "softrast"
version = "0.1.0"
edition = "2021"
publish = false

[dependencies]
rand = "=0.10.3"
glam = "=0.34.1"
threadpool = "=1.8.1"
sdl2 = "=0.38.0"
