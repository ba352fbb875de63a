[package]
name = "blob_client"
version = "0.1.0"
edition = "2021"
publish = false

[dependencies]
self_encryption = "*"
bincode = "1"
bytes = "1"
xor_name = "*"
rand = "0.8"
tokio = { version = "1", features = ["rt", "rt-multi-thread", "macros", "sync"] }
futures = "0.3"

[dev-dependencies]
