[package]
name = "sonorous"
version = "0.1.0"
edition = "2021"
publish = false

[dependencies]
rand = "=0.8.8"
sdl = "0.3.6"
sdl_image = "0.3.8"
sqlite3 = "0.24.0"
