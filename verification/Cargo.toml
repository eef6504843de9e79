[package]
name = "webauthn_wallet"
version = "0.1.0"
edition = "2021"
publish = false

[dependencies]
soroban-sdk = "=21.7.7"
soroban-env-host = "=21.2.1"
serde = { version = "=1.0.229", default-features = false, features = ["derive"] }
serde-json-core = { version = "=0.6.0", default-features = false }
