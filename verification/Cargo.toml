[package]
name = "kmeans"
version = "0.1.0"
edition = "2021"
publish = false

[dependencies]
rand = "=0.6.5"

[dev-dependencies]
rand_core = "=0.4.3"
rand_xorshift = "=0.1.1"
