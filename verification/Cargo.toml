[package]
name = "reactor"
version = "0.1.0"
edition = "2021"
publish = false

[dependencies]
byteorder = "=1.5.0"
crossbeam = "0.2"
num_cpus = "=1.17.0"
rand = "0.3"
