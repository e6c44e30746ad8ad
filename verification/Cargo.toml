[package]
name = "triforce"
version = "0.1.0"
edition = "2021"
publish = false

[dependencies]
itertools = "*"
lv2 = "*"
nalgebra = "*"
