[package]
name = "transaction_relay"
version = "0.1.0"
edition = "2021"
publish = false

[dependencies]
hex = "=0.4.3"
snarkvm-dpc = "=0.7.9"
snarkvm-utilities = "=0.7.9"
tracing = "=0.1.44"
