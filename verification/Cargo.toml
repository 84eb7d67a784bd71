[package]
name = "binding_helpers"
version = "0.1.0"
edition = "2021"
publish = false

[dependencies]
regex = "*"
bindgen = "*"
rust-format = "*"
once_cell = "*"
