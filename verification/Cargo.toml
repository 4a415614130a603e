[package]
name = "cursive_flexbox"
version = "0.3.0"
edition = "2021"
publish = false

[dependencies]
cursive_core = "0.3"
