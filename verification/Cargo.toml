[package]
name = "cartog"
version = "0.1.0"
edition = "2021"
publish = false

[dependencies]
clap = "2"
image = { version = "0.24", default-features = false, features = ["png"] }
noise = { version = "0.7", default-features = false }
rand = "0.7"
