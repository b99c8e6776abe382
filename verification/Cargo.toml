[package]
name = "render"
version = "0.1.0"
edition = "2021"
publish = false

[dependencies]
ammonia = "=4.2.4"
comrak = { version = "=0.44.0", default-features = false }
url = "=2.5.8"
