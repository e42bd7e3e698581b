[package]
name = "shared_memory"
version = "0.1.0"
edition = "2021"
publish = false

[dependencies]
cfg-if = "1"
nix = { version = "*", default-features = false, features = ["fs", "mman"] }
