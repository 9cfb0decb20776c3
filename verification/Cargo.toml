[package]
name = "sigverify_stage"
version = "0.1.0"
edition = "2021"
publish = false

[dependencies]
log = "0.4"
rand = "0.5"

[dev-dependencies]
ed25519-dalek = "2"
