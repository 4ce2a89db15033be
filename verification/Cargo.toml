[package]
name = "jam"
version = "0.1.0"
edition = "2021"
publish = false

[dependencies]
bimap = "0.6"
memmap = "0.7"
