[package]
name = "intent_client"
version = "0.1.0"
edition = "2021"
publish = false

[dependencies]
borsh = "0.9"
ed25519-dalek = "=2.2.0"
rust_decimal = { version = "=1.43.0", default-features = false, features = ["std"] }
color-eyre = { version = "=0.6.5", default-features = false }
