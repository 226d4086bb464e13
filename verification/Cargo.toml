[package]
name = "tx_engine"
version = "0.1.0"
edition = "2021"
publish = false

[dependencies]
csv = "1"
rust_decimal = "1"
