[package]
name = "ethcontract"
version = "0.1.0"
edition = "2021"
publish = false

[dependencies]
ethabi = "9.0"
futures = { version = "0.3", features = ["compat"] }
web3 = { version = "0.10", default-features = false }
