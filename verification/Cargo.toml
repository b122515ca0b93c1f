[package]
name = "mirror_contracts"
version = "0.1.0"
edition = "2021"
publish = false

[dependencies]
cosmwasm-std = "0.16"
cosmwasm-storage = "0.16"
cw20 = "0.8"
terraswap = "2"
integer-sqrt = "0.1"
serde = { version = "1", default-features = false, features = ["derive"] }
schemars = "0.8"
