[package]
name = "blockchain"
version = "0.1.0"
edition = "2021"
publish = false

[dependencies]
byteorder = "=1.5.0"
exonum-crypto = "=0.12.0"
exonum-merkledb = "=0.12.0"
failure = "=0.1.8"
sha2 = "0.10"
