[package]
name = "rust_search"
version = "0.1.0"
edition = "2021"
publish = false

[dependencies]
clap = { version = "*", features = ["derive"] }
itertools = "*"
ndarray = "*"
num_cpus = "*"
num-traits = "*"
rayon = "*"
