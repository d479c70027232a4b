[package]
name = "hard_kick_sampler"
version = "0.1.0"
edition = "2021"
publish = false

[dependencies]
hound = "3.5"
pitch-detection = "*"
tdpsola = "*"
