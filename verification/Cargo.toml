[package]
name = "prover_storage"
version = "0.1.0"
edition = "2021"
publish = false

[dependencies]
jmt = { version = "=0.12.0", default-features = false, features = ["std", "sha2", "mocks"] }
sha2 = "=0.10.9"
borsh = "=1.8.1"
