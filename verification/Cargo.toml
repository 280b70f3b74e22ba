[package]
name = "ibc-gamm"
version = "0.1.0"
edition = "2021"
publish = false

[dependencies]
cosmwasm-std = { version = "1.0", features = ["stargate"] }
cosmwasm-storage = "1.0"
cw-storage-plus = "0.13"
prost = "0.9"
prost-types = "0.9"
schemars = "0.8"
serde = { version = "1.0", default-features = false, features = ["derive"] }
bigdecimal = "0.3"
num-bigint = "0.4"
num-traits = "0.2"
