[package]
name = "depinzcash_prover"
version = "0.1.0"
edition = "2021"
publish = false

[dependencies]
sha2 = "*"
hex = "*"
serde = { version = "*", features = ["derive"] }
serde_json = "*"
chrono = "*"
clap = { version = "*", features = ["derive"] }
dirs = "*"
which = "*"
tracing = "*"
tracing-subscriber = { version = "*", features = ["env-filter"] }
rocksdb = "*"
anyhow = "*"
halo2_proofs = "*"
pasta_curves = "*"
