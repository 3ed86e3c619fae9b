[package]
name = "pure_random"
version = "0.1.0"
edition = "2021"
publish = false

[dependencies]
stylus-sdk = "*"

[dev-dependencies]
tiny-keccak = { version = "2.0", features = ["keccak"] }
