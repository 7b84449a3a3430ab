[package]
name = "eth_rpc"
version = "0.1.0"
edition = "2021"
publish = false

[dependencies]
jsonrpc-core = "*"
linked-hash-map = "0.5"
rlp = "*"
serde = { version = "1", features = ["derive"] }
serde_json = "1"
time = "0.1"
tiny-keccak = { version = "2", features = ["keccak"] }
