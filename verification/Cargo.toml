[package]
name = "hd_signer"
version = "0.1.0"
edition = "2021"
publish = false

[dependencies]
cardano-serialization-lib = "=14.1.2"
tiny-bip39 = "=2.0.0"
cxx = "=1.0.202"

[dev-dependencies]
whisky-wallet = "=1.0.25"
