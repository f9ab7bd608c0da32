[package]
name = "zk_jam"
version = "0.1.0"
edition = "2021"
publish = false

[dependencies]
blake2b_simd = "1"
sha2 = "0.10"
tiny-keccak = { version = "2", features = ["keccak"] }
serde = { version = "1", features = ["derive"] }
serde_json = "1"
jsonschema = { version = "*", default-features = false }
eyre = "0.6"
thiserror = "1"
