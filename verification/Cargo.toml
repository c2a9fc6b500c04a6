[package]
name = "prism_hub"
version = "0.1.0"
edition = "2021"
publish = false

[dependencies]
cosmwasm-std = { version = "1", features = ["staking", "stargate", "ibc3", "iterator"] }
cosmwasm-schema = "1"
cw20 = "1"
cw-storage-plus = "1"
cw-controllers = "1"
rand = "0.5"
prost = "0.11"
schemars = "0.8"
serde = { version = "1", features = ["derive"] }
thiserror = "1"
