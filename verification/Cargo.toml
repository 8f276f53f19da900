[package]
name = "bricksorter"
version = "0.1.0"
edition = "2021"
publish = false

[dependencies]
ev3dev-lang-rust = "*"
strum_macros = "*"
