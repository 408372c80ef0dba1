[package]
name = "grandpa_justification"
version = "0.1.0"
edition = "2021"
publish = false

[dependencies]
ed25519-dalek = "*"

[dev-dependencies]
parity-scale-codec = "*"
finality-grandpa = "*"
