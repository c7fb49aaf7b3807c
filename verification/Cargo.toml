[package]
name = "ledger"
version = "0.1.0"
edition = "2021"
publish = false

[dependencies]
libp2p = { version = "*", default-features = false, features = ["ed25519"] }
sha3 = "*"
rand = "*"
serde = { version = "*", features = ["derive"] }
serde_json = "*"
log = "*"
dirs = "*"

[dev-dependencies]
data-encoding = "*"
