[package]
name = "ip_proofs"
version = "0.1.0"
edition = "2021"
publish = false

[dependencies]
blake2 = "=0.11.0"
digest = "=0.11.3"
rand = "=0.10.3"
