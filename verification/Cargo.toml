[package]
name = "pyrin_contracts"
version = "0.1.0"
edition = "2021"
publish = false

[dependencies]
borsh = { version = "1", features = ["derive"] }
hex = "0.4"
indexmap = "2"
serde = { version = "1", features = ["derive"] }
sha3 = "0.10"
thiserror = "1"
wasmi = "*"
