[package]
name = "typed_kv"
version = "0.1.0"
edition = "2021"
publish = false

[dependencies]
zerocopy = "0.6"
rocksdb = { version = "*", default-features = false }
serde = "1"
serde_json = "1"
postcard = { version = "1", default-features = false, features = ["alloc"] }
ordcode = "*"
protokit = "*"
