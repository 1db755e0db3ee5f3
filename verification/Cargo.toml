[package]
name = "woodgrain"
version = "0.1.0"
edition = "2021"

[dependencies]
image = { version = "0.24", default-features = false }
interpolation = "*"
rand = "0.8"
rand_distr = "0.4"
