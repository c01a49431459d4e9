[package]
name = "cw_bundler"
version = "0.1.0"
edition = "2021"
publish = false

[dependencies]
base64 = "0.13"
cosmwasm-std = "0.16"
cw2 = "0.9"
cw20 = "0.9"
cw721 = "0.9"
cw721-base = "0.9"
cw1155 = "0.9"
cw-storage-plus = "0.9"
schemars = "0.8"
serde = { version = "1", features = ["derive"] }
serde-json-wasm = "0.3"
thiserror = "1"
