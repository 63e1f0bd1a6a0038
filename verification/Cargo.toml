[package]
name = "goldinals_merkle_tree"
version = "0.1.0"
edition = "2021"
publish = false

[dependencies]
clap = { version = "4", features = ["derive"] }
hex = "0.4"
rand = "0.8"
serde = { version = "1", features = ["derive"] }
serde_json = "1"
sha2 = "0.10"
sp1-zkvm = "3"

[dev-dependencies]
rs_merkle = "1"
