[package]
name = "nexus_move"
version = "0.1.0"
edition = "2021"
publish = false

[dependencies]
blake3 = "1"
bcs = "0.1"
serde = { version = "1", features = ["derive"] }
serde_json = "1"
sha2 = "0.10"
sha3 = "0.10"
smallvec = "1"
better_any = "*"
bytes = "1"
