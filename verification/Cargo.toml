[package]
name = "conway_rs"
version = "0.1.0"
edition = "2021"
publish = false

[dependencies]
sdl2 = { version = "=0.38.0", features = ["ttf", "image"] }
rfd = { version = "=0.17.2", default-features = false, features = ["xdg-portal"] }
clap = { version = "=4.6.7", features = ["derive"] }
