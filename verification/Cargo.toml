[package]
name = "andromeda"
version = "0.1.0"
edition = "2021"
publish = false

[dependencies]
cosmwasm-std = "1.5"
cw-utils = "1.0"
cw3 = "1.1"
semver = "1"
serde = { version = "1", features = ["derive"] }
schemars = "0.8"
thiserror = "1"
