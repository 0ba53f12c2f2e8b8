[package]
name = "example_l2"
version = "0.1.0"
edition = "2021"
publish = false

[dependencies]
committable = "*"
ethers-core = "2"
ethers-signers = "2"
rand = "0.8"
rand_chacha = "0.3"
