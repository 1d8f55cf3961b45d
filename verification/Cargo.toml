[package]
name = "alliance_hub"
version = "0.1.0"
edition = "2021"
publish = false

[dependencies]
cosmwasm-std = "1.5"
cosmwasm-schema = "1.5"
cw2 = "1"
cw20 = "1"
cw-asset = "3"
cw-storage-plus = "1"
cw-utils = "1"
semver = "1"
thiserror = "1"
terra-proto-rs = "*"
ve3-shared = "*"
