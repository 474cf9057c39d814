[package]
name = "http_router"
version = "0.1.0"
edition = "2021"
publish = false

[dependencies]
regex = "=1.13.1"
lazy_static = "=1.5.1"
hyper = { version = "=0.12.36", default-features = false }
futures = "=0.1.31"
