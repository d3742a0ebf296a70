[package]
name = "dfs_node"
version = "0.1.0"
edition = "2021"
publish = false

[dependencies]
rust-crypto = "0.2.36"

[dev-dependencies]
bincode = "1.3"
serde = "1"
