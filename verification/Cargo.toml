[package]
name = "qcow2"
version = "0.1.0"
edition = "2021"
publish = false

[dependencies]
byteorder = "1"
lru-cache = "0.1"
nix = { version = "*", features = ["uio"] }
positioned-io = "*"
