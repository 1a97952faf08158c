[package]
name = "jex-sc-stablepool"
version = "0.1.0"
edition = "2021"
publish = false

[dependencies]
multiversx-sc = "=0.53.2"
multiversx-sc-scenario = "=0.53.2"
