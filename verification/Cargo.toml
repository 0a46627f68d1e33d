[package]
name = "simple_ctv"
version = "0.1.0"
edition = "2021"
publish = false

[dependencies]
bitcoin = { version = "0.32", features = ["rand-std"] }
rand = "0.8"
bitcoincore-rpc = "0.19"
