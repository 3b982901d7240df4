[package]
name = "tweak_indexer"
version = "0.1.0"
edition = "2021"
publish = false

[dependencies]
bitcoin = "=0.32.102"
secp256k1 = "=0.33.1"
silentpayments = "=0.7.1"
rusqlite = { version = "=0.40.2", features = ["bundled"] }
serde = { version = "1", features = ["derive"] }
clap = { version = "4", features = ["derive"] }
tokio = { version = "1", features = ["rt-multi-thread", "macros"] }
warp = { version = "=0.4.3", features = ["server"] }
