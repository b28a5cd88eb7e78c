[package]
name = "snake"
version = "0.1.0"
edition = "2021"
publish = false

[dependencies]
rand = "=0.7.3"
piston_window = "0.105"
find_folder = "0.3"
