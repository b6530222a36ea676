[package]
name = "geid_rewards"
version = "0.1.0"
edition = "2021"
publish = false

[dependencies]
cosmwasm-schema = "1.5"
cosmwasm-std = "1.5"
cw-storage-plus = "1.2"
hex = "0.4"
num-bigint = "0.4"
schemars = "0.8"
serde = { version = "1", features = ["derive"] }
sha2 = "0.10"

[dev-dependencies]
serde_json = "1"
