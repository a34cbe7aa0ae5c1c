[package]
name = "staking_mock"
version = "0.1.0"
edition = "2021"
publish = false

[dependencies]
cosmwasm-std = "=0.16.7"
cw20 = "=0.8.1"
terra-cosmwasm = "=2.2.0"
terraswap = "=2.4.1"
