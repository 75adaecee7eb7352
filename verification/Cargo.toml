[package]
name = "runtime_sdk"
version = "0.1.0"
edition = "2021"
publish = false

[dependencies]
bech32 = "=0.9.1"
base64 = "=0.13.1"
primitive-types = "=0.12.2"
thiserror = "=1.0.69"
