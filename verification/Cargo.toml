[package]
name = "xycloans"
version = "0.1.0"
edition = "2021"
publish = false

[dependencies]
fixed-point-math = "*"
soroban-sdk = "20"
