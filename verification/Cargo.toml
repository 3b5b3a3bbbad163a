[package]
name = "fox3osc"
version = "0.1.0"
edition = "2021"
publish = false

[dependencies]
arrayvec = "*"
rand = { version = "*", features = ["small_rng"] }
