[package]
name = "soroban_env_host"
version = "0.1.0"
edition = "2021"
publish = false

[dependencies]
stellar-xdr = "20"
stellar-strkey = "0.0"
ethnum = "1.5"
sha2 = "0.10"
sha3 = "0.10"
ed25519-dalek = "2"
k256 = "0.13"
rand = "0.8"
rand_chacha = "0.3"
