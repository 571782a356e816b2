[package]
name = "engine"
version = "0.1.0"
edition = "2021"
publish = false

[dependencies]
rltk = { version = "=0.8.7", default-features = false, features = ["crossterm"] }
shipyard = "=0.6.5"
lazy_static = "=1.5.1"
rand = "=0.8.8"
