[package]
name = "b_ruge"
version = "0.2.7"
edition = "2021"
publish = false

[dependencies]
rltk = "0.8"
rodio = "0.13"
chrono = "0.4"
