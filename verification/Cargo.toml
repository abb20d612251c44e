[package]
name = "onvm"
version = "0.1.0"
edition = "2021"
publish = false

[dependencies]
blake3 = "=1.8.7"
rand = "=0.8.8"
blst = "=0.3.17"
libp2p = { version = "=0.54.1", default-features = false, features = ["ed25519"] }
libp2p-identity = { version = "=0.2.14", features = ["ed25519", "peerid", "rand"] }
secp256k1 = "=0.29.1"
serde = { version = "=1.0.229", features = ["derive"] }
cbor4ii = { version = "=0.3.3", features = ["serde1"] }
hex = "=0.4.3"
hkdf = "=0.12.4"
hmac = "=0.12.1"
sha2 = "=0.10.9"
chacha20poly1305 = "=0.10.1"
base64 = "=0.22.1"
toml = "=0.8.23"
clap = { version = "=4.6.7", features = ["derive"] }
uuid = { version = "=1.29.0", features = ["v4"] }
ed25519-dalek = "=2.2.0"
argon2 = "0.5"
bincode = { version = "2", features = ["serde"] }
serde_json = "1"
