[package]
name = "chain_fusion"
version = "0.1.0"
edition = "2021"
publish = false

[dependencies]
ethers-core = "=2.0.14"
hex = "=0.4.3"
candid = "=0.10.37"
serde = "1"
serde_json = "1"
serde_bytes = "=0.11.19"
ic-cdk = "=0.20.3"
ic-cdk-timers = "=1.0.0"
ic-stable-structures = "=0.7.2"
minicbor = { version = "=2.3.0", features = ["alloc"] }
minicbor-derive = "=0.19.5"
rand = "=0.8.8"
rand_chacha = "=0.3.1"
num-traits = "=0.2.19"
svg = "=0.18.0"
