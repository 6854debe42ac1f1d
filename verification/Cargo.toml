[package]
name = "apate"
version = "0.1.0"
edition = "2021"
publish = false

[dependencies]
blake3 = { version = "1", default-features = false, features = ["pure"] }
chacha20poly1305 = "0.10"
x25519-dalek = { version = "2", features = ["static_secrets"] }
ed25519-dalek = "2"
rand_chacha = "*"
subtle = "2"
zeroize = "1"
thiserror = "2"
libc = "0.2"
