[package]
name = "toy_rust_async_rt"
version = "0.1.0"
edition = "2021"
publish = false

[dependencies]
anyhow = "1"
futures = "0.3"
pin-project-lite = "0.2"
