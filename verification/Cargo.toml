[package]
name = "rsh"
version = "0.1.0"
edition = "2021"
publish = false

[dependencies]
nix = "0.26"
libc = "0.2"
rustyline = { version = "12", features = ["derive"] }
lazy_static = "1"
fragile = "2"
