[package]
name = "egobox"
version = "0.1.0"
edition = "2021"
publish = false

[dependencies]
ndarray = "0.15"
ndarray-linalg = "0.16"
ndarray_einsum_beta = "0.7"
ndarray-rand = "0.14"
rand_xoshiro = "0.6"
linfa = "0.7"
linfa-clustering = "0.7"
nlopt = "*"
argmin = "*"
serde = { version = "1", features = ["derive"] }
