[package]
name = "cw-abc"
version = "0.1.0"
edition = "2021"
publish = false

[dependencies]
cosmwasm-schema = "1.5"
cosmwasm-std = "1.5"
cosmwasm-storage = "1.5"
cw-ownable = "0.5"
cw-storage-plus = "1.2"
cw-utils = "1.0"
dao-interface = "2"
schemars = "0.8"
serde = { version = "1", features = ["derive"] }
