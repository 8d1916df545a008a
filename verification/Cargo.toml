[package]
name = "passwg"
version = "0.1.0"
edition = "2021"
publish = false

[dependencies]
getrandom = "*"
rand_chacha = "*"
rand_core = "*"
rayon = "*"
