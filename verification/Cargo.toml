[package]
name = "devsim"
version = "0.1.0"
edition = "2021"
publish = false

[dependencies]
goblin = "*"
gumdrop = "*"
pbr = "*"
image = "*"
