[package]
name = "sigma_linear"
version = "0.1.0"
edition = "2021"
publish = false

[dependencies]
ark-ec = "=0.6.0"
ark-ff = "=0.6.0"
ark-serialize = "=0.6.0"
ark-std = "=0.6.0"
ark-secp256k1 = "=0.6.0"
merlin = "=3.0.0"
