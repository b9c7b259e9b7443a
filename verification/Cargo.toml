[package]
name = "paths"
version = "0.1.0"
edition = "2021"
publish = false

[dependencies]
camino = "1"
home = "0.5"
