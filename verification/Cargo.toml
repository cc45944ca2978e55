[package]
name = "replica_store"
version = "0.1.0"
edition = "2021"
publish = false

[dependencies]
aes = "0.8"
base64 = "0.13"
cbc = { version = "0.1", features = ["alloc"] }
hex = "0.4"
hmac = "0.12"
lazy_static = "1"
log = "0.4"
rand = "0.8"
rusqlite = { version = "0.31", features = ["bundled"] }
serde = { version = "1", features = ["derive"] }
serde_json = "1"
sha2 = "0.10"
