[package]
name = "zeckendorf"
version = "0.1.0"
edition = "2021"

[dependencies]
grabinput = "=0.1.1"
