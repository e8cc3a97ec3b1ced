[package]
name = "ip_settlement"
version = "0.1.0"
edition = "2021"
publish = false

[dependencies]
cosmwasm-std = "1.5"
cw20-base = "1.1"
cw721-base = "0.18"
