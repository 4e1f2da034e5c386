[package]
name = "progenitor"
version = "0.1.0"
edition = "2021"
publish = false

[dependencies]
rand = "=0.9.5"
rand_xoshiro = { version = "=0.7.0", features = ["serde"] }
rand_pcg = "=0.9.0"
rand_distr = "=0.5.1"
serde = { version = "=1.0.229", features = ["derive"] }
serde_json = "=1.0.154"
bincode = "=1.3.3"
hex2d = "=1.1.0"
nalgebra = "=0.33.3"
num-traits = "=0.2.19"
num-derive = "=0.4.2"
rayon = "=1.12.0"
num_cpus = "=1.17.0"
