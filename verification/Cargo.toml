[package]
name = "stunlock"
version = "0.1.0"
edition = "2021"
publish = false

[dependencies]
fasthash = "*"
murmur3 = "*"
xxhash-rust = { version = "*", features = ["xxh3"] }
