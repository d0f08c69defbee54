[package]
name = "cdp_types"
version = "0.1.0"
edition = "2021"
publish = false

[dependencies]
cea708-types = "*"
