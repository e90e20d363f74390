[package]
name = "sha3pow"
version = "0.1.0"
edition = "2021"
publish = false

[dependencies]
parity-scale-codec = { version = "*", features = ["derive"] }
primitive-types = { version = "*", features = ["std", "rand", "codec"] }
rand = { version = "0.8", features = ["small_rng"] }
sha3 = "*"
