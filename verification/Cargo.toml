[package]
name = "better_snake"
version = "0.1.0"
edition = "2021"
publish = false

[dependencies]
rand = "=0.8.8"
raylib = { version = "=3.7.0", features = ["nobuild"] }
