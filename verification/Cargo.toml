[package]
name = "laurn"
version = "0.1.0"
edition = "2021"
publish = false

[dependencies]
blake3 = "=1.8.7"
subtle = "=2.6.1"
ed25519-dalek = { version = "=2.2.0", features = ["rand_core"] }
rand = "=0.8.8"
log = "=0.4.35"
fixed = "=1.31.0"
typenum = "=1.20.1"
hex = "=0.4.3"
clap = { version = "=4.6.7", features = ["derive"] }

[dev-dependencies]
borsh = "=1.8.1"
