[package]
name = "nexus"
version = "0.1.0"
edition = "2021"
publish = false

[dependencies]
crossbeam-utils = "0.8"
nix = { version = "0.30", features = ["mman", "fs"] }
rustls = { version = "0.23", default-features = false, features = ["ring", "std", "tls12"] }
