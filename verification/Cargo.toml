[package]
name = "certificate"
version = "0.1.0"
edition = "2021"
publish = false

[dependencies]
soroban-sdk = "*"
stellar-tokens = "*"
stellar-access = "*"
stellar-macros = "*"
