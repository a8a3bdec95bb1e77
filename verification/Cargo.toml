[package]
name = "bootstrap_cache"
version = "0.1.0"
edition = "2021"
publish = false

[dependencies]
itertools = "*"
rustc-serialize = "0.3"
time = "0.1"

[dev-dependencies]
rand = "0.8"
