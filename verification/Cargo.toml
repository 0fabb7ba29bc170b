[package]
name = "menger_stl"
version = "0.1.0"
edition = "2021"
publish = false
