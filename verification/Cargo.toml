[package]
name = "noir_core"
version = "0.1.0"
edition = "2021"
publish = false

[dependencies]
ark-bn254 = "0.3"
ark-ff = "0.3"
hex = "0.4"
num-bigint = "0.4"
thiserror = "1"
