[package]
name = "monosaw"
version = "0.1.0"
edition = "2021"
publish = false

[dependencies]
jack = "0.13.5"
rosc = "0.11.4"
