[package]
name = "rpass"
version = "0.1.0"
edition = "2021"
publish = false

[dependencies]
rust-crypto = "=0.2.36"
rand = "=0.8.8"
libc = "=0.2.191"
serde = { version = "=1.0.229", features = ["derive"] }
serde_json = "=1.0.154"
rpassword = "=7.5.4"
getopts = "=0.2.24"
crypto_secretbox = "=0.1.1"
zeroize = "=1.9.1"
