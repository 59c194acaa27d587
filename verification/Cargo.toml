[package]
name = "cell_engine"
version = "0.1.0"
edition = "2021"
publish = false

[dependencies]
anyhow = "1"
crossbeam-channel = "0.5"
dirs = "*"
fuzzy-matcher = "0.3"
log = "0.4"
napi = { version = "1", features = ["napi4", "serde-json"] }
napi-derive = "1"
serde = { version = "1", features = ["derive"] }
