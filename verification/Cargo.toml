[package]
name = "pact_broker"
version = "0.1.0"
edition = "2021"
publish = false

[dependencies]
futures = "0.1"
hyper = "0.12"
regex = "0.1"
serde_json = "1"
