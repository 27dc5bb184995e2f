[package]
name = "zkay"
version = "0.1.0"
edition = "2021"
publish = false

[dependencies]
num_cpus = "=1.17.0"
rayon = "=1.12.0"
lazy_static = "=1.5.1"
