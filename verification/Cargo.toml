[package]
name = "libproof"
version = "0.1.0"
edition = "2021"
publish = false

[dependencies]
bulletproofs = { version = "=3.0.1", default-features = false, features = ["std", "yoloproofs"] }
curve25519-dalek-ng = "=3.0.3"
merlin = "=2.0.1"
serde_json = "1"

[dev-dependencies]
num-bigint = "=0.2.6"
