[package]
name = "hot_spare_vote"
version = "0.1.0"
edition = "2021"
publish = false

[dependencies]
bincode = "=1.3.3"
crossbeam-channel = "0.5"
log = "0.4"
serde = { version = "1", features = ["derive"] }
solana-measure = "=2.2.20"
solana-pubkey = "=2.2.1"
solana-sdk = { version = "=2.2.2", default-features = false }
solana-transaction = { version = "=2.2.3", features = ["bincode", "serde", "verify"] }
solana-transaction-error = "=2.2.1"
solana-vote-program = "=2.2.20"
thiserror = "2"

[dev-dependencies]
solana-keypair = "=2.2.3"
solana-signer = "=2.2.1"
