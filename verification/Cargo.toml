[package]
name = "nonce_store"
version = "0.1.0"
edition = "2021"
publish = false

[dependencies]
byteorder = "*"
rocksdb = { version = "*", default-features = false }

[dev-dependencies]
tempfile = "*"
