[package]
name = "safrimba"
version = "0.1.0"
edition = "2021"
publish = false

[dependencies]
cosmwasm-std = "*"
cw-storage-plus = "*"
cw-utils = "*"
cw2 = "*"
schemars = "*"
serde = { version = "*", features = ["derive"] }
thiserror = "*"
