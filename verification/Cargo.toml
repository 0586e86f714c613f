[package]
name = "zokrates_proof_system"
version = "0.1.0"
edition = "2021"
publish = false

[dependencies]
ark-bls12-377 = "=0.2.0"
ark-bn254 = "=0.2.0"
ark-bw6-761 = "=0.2.0"
ark-crypto-primitives = "=0.2.0"
ark-ec = "=0.2.0"
ark-ff = "=0.2.0"
ark-gm17 = "=0.2.0"
ark-relations = "=0.2.0"
ark-serialize = "=0.2.0"
ark-std = "=0.2.0"
bellman = "=0.1.0"
bincode = "=1.3.3"
clap = "=2.34.0"
hex = "=0.4.3"
pairing = "=0.14.2"
phase2 = "=0.2.2"
rand = "=0.7.3"
serde = { version = "=1.0.229", features = ["derive"] }
