[package]
name = "shielded_pool"
version = "0.1.0"
edition = "2021"
publish = false

[dependencies]
bytemuck = "=1.25.2"
pinocchio = "=0.11.2"
pinocchio-system = "=0.6.1"
solana-address = { version = "=2.9.0", features = ["curve25519"] }
solana-instruction-view = "=2.1.0"
solana-program-error = "=3.0.1"
solana-program-log = "=1.2.0"
