[package]
name = "pyblock_miner"
version = "0.2.20"
edition = "2021"
publish = false

[dependencies]
bitcoin = { version = "0.32", features = ["rand-std"] }
blake2b_simd = "1"
crossterm = "0.28"
hex = "0.4"
ratatui = "0.29"
serde = { version = "1", features = ["derive"] }
serde_json = "1"
ureq = "2"
