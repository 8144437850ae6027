[package]
name = "xtask"
version = "0.1.0"
edition = "2021"
publish = false

[dependencies]
regex = "1"
duct = "*"
cargo_metadata = "*"
lazy_static = "1"
