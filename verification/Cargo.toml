[package]
name = "teal"
version = "0.1.0"
edition = "2021"
publish = false

[dependencies]
anyhow = "=1.0.104"
wasmer = "=6.1.0"
