[package]
name = "manifest_eval"
version = "0.1.0"
edition = "2021"
publish = false

[dependencies]
fnv = "1"
serde_bytes = "0.11"
