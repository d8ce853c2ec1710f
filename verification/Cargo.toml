[package]
name = "wg_element"
version = "0.1.0"
edition = "2021"
publish = false

[dependencies]
glam = "*"
