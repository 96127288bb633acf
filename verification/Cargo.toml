[package]
name = "ic_web3"
version = "0.1.0"
edition = "2021"
publish = false

[dependencies]
libsecp256k1 = "0.7"
tiny-keccak = { version = "2", features = ["keccak"] }
hex = "0.4"
ic-cdk = "*"
candid = "*"
serde = { version = "1", features = ["derive"] }
serde_json = "1"
jsonrpc-core = "18"

[dev-dependencies]
rlp = "0.5"
