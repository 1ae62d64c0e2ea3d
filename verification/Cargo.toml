[package]
name = "synth-backend"
version = "0.1.0"
edition = "2021"
publish = false

[dependencies]
cpal = "0.15"
device_query = "1"
rand = "0.8"
rand_distr = "0.4"
rodio = { version = "0.17", default-features = false }
