[package]
name = "shuffle_bench"
version = "0.1.0"
edition = "2021"
publish = false

[dependencies]
chrono = "*"
csv = "*"
rand = "0.8"
rip_shuffle = "*"
