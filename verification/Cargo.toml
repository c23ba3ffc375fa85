[package]
name = "age_vault"
version = "0.1.0"
edition = "2021"
publish = false

[dependencies]
age = { version = "0.11", features = ["armor", "async"] }
age-core = "0.11"
argon2 = "0.5"
base64 = "0.22"
bech32 = "0.11"
bip39 = { version = "2", features = ["rand"] }
chacha20poly1305 = "0.10"
cuid2 = "0.1"
futures-util = { version = "0.3", features = ["io"] }
hmac = "0.12"
hpke-rs = "*"
hpke-rs-libcrux = "*"
libcrux-ml-kem = "*"
secrecy = "0.10"
sha2 = "0.10"
sha3 = "0.10"
tokio = { version = "1", features = ["fs", "io-util", "rt", "rt-multi-thread", "sync", "time"] }
tokio-util = { version = "0.7", features = ["compat"] }
x25519-dalek = "2"

[dev-dependencies]
serde_cbor = "0.11"
